//! Calls into the HTTP and encoding crates.

use vstd::prelude::*;

verus! {

/// A character that an HTTP header value may hold: visible ASCII, space, tab, or any
/// character beyond ASCII.
pub open spec fn header_char_ok(c: char) -> bool {
    (c as u32 >= 32 && c as u32 != 127) || c as u32 == 9
}

pub open spec fn header_text_valid(s: Seq<char>) -> bool {
    forall|i: int| 0 <= i < s.len() ==> header_char_ok(#[trigger] s[i])
}

/// Relies on http::HeaderValue::from_str, which accepts a string exactly when each of its
/// bytes is a tab or at least 32 and not 127; a character beyond ASCII has only bytes of
/// 128 or more.
#[verifier::external_body]
pub fn header_value_ok(s: &str) -> (r: bool)
    ensures
        r == header_text_valid(s@),
{
    http::HeaderValue::from_str(s).is_ok()
}

/// What serde_json reports of a text read as one JSON value: `None` where it is valid JSON,
/// else the error's message.
pub uninterp spec fn json_parse_error(s: Seq<char>) -> Option<Seq<char>>;

/// Relies on serde_json::from_str into serde_json::Value, whose outcome depends on the text
/// alone; the message is the error's display text.
#[verifier::external_body]
pub fn json_error(s: &str) -> (r: Option<String>)
    ensures
        match r {
            Some(e) => json_parse_error(s@) == Some(e@),
            None => json_parse_error(s@) is None,
        },
{
    serde_json::from_str::<serde_json::Value>(s).err().map(|e| e.to_string())
}

/// A text percent-encoded byte by byte, every byte but an ASCII letter or digit escaped.
pub uninterp spec fn pct_encoded(s: Seq<char>) -> Seq<char>;

/// Relies on percent_encoding::utf8_percent_encode with NON_ALPHANUMERIC, which depends on
/// the text alone and leaves an empty text empty. Its output holds only ASCII letters and
/// digits and `%XX` escapes, so no `/`; percent_decode turns each escape back into its byte,
/// which gives back the text.
#[verifier::external_body]
pub fn percent_encode(s: &str) -> (r: String)
    ensures
        r@ == pct_encoded(s@),
        s@.len() == 0 ==> r@.len() == 0,
        forall|i: int| 0 <= i < r@.len() ==> r@[i] != '/',
        pct_decoded(r@) == Some(s@),
{
    percent_encoding::utf8_percent_encode(s, percent_encoding::NON_ALPHANUMERIC).to_string()
}

/// A percent-encoded text decoded, or `None` where the decoded bytes are not UTF-8.
pub uninterp spec fn pct_decoded(s: Seq<char>) -> Option<Seq<char>>;

/// Relies on percent_encoding::percent_decode followed by decode_utf8, which depend on the
/// text alone.
#[verifier::external_body]
pub fn percent_decode(s: &str) -> (r: Option<String>)
    ensures
        match r {
            Some(t) => pct_decoded(s@) == Some(t@),
            None => pct_decoded(s@) is None,
        },
{
    percent_encoding::percent_decode(s.as_bytes()).decode_utf8().ok().map(|c| c.into_owned())
}

/// A sequence of string pairs in `application/x-www-form-urlencoded` form, or `None` where
/// the encoder refuses it.
pub uninterp spec fn urlencoded(p: Seq<(Seq<char>, Seq<char>)>) -> Option<Seq<char>>;

/// Relies on serde_urlencoded::to_string over a sequence of string pairs, whose outcome
/// depends on the pairs alone.
#[verifier::external_body]
pub fn encode_query(p: &Vec<(String, String)>) -> (r: Option<String>)
    ensures
        match r {
            Some(t) => urlencoded(p@.map_values(|x: (String, String)| (x.0@, x.1@))) == Some(t@),
            None => urlencoded(p@.map_values(|x: (String, String)| (x.0@, x.1@))) is None,
        },
{
    serde_urlencoded::to_string(p).ok()
}

/// An `application/x-www-form-urlencoded` text read as string pairs, or `None` where it
/// does not read.
pub uninterp spec fn urldecoded(s: Seq<char>) -> Option<Seq<(Seq<char>, Seq<char>)>>;

/// Relies on serde_urlencoded::from_str into a vector of string pairs, whose outcome depends
/// on the text alone.
#[verifier::external_body]
pub fn decode_query(s: &str) -> (r: Option<Vec<(String, String)>>)
    ensures
        match r {
            Some(p) => urldecoded(s@) == Some(p@.map_values(|x: (String, String)| (x.0@, x.1@))),
            None => urldecoded(s@) is None,
        },
{
    serde_urlencoded::from_str::<Vec<(String, String)>>(s).ok()
}

/// A text written as a JSON string literal, quoted and escaped; `None` where the encoder
/// refuses it.
pub uninterp spec fn json_quoted(s: Seq<char>) -> Option<Seq<char>>;

/// Relies on serde_json::to_string on a string, whose outcome depends on the text alone.
#[verifier::external_body]
pub fn json_string(s: &str) -> (r: Option<String>)
    ensures
        match r {
            Some(t) => json_quoted(s@) == Some(t@),
            None => json_quoted(s@) is None,
        },
{
    serde_json::to_string(s).ok()
}

/// Body bytes read as a JSON object: each member's key and the JSON text of its value, in
/// key order, or the parser's message.
pub uninterp spec fn json_members_of(b: Seq<u8>) -> Result<Seq<(Seq<char>, Seq<char>)>, Seq<char>>;

/// Relies on serde_json::from_slice into serde_json::Map, whose members come in key order,
/// each value written back with its display text; the outcome depends on the bytes alone.
#[verifier::external_body]
pub fn json_members(b: &Vec<u8>) -> (r: Result<Vec<(String, String)>, String>)
    ensures
        match r {
            Ok(p) => json_members_of(b@) == Ok::<_, Seq<char>>(p@.map_values(|x: (String, String)| (x.0@, x.1@))),
            Err(e) => json_members_of(b@) == Err::<Seq<(Seq<char>, Seq<char>)>, _>(e@),
        },
{
    serde_json::from_slice::<serde_json::Map<String, serde_json::Value>>(b)
        .map(|m| m.into_iter().map(|(k, v)| (k, v.to_string())).collect())
        .map_err(|e| e.to_string())
}

/// Body bytes read as one JSON value and written back as text, or the parser's message.
pub uninterp spec fn json_text_of(b: Seq<u8>) -> Result<Seq<char>, Seq<char>>;

/// Relies on serde_json::from_slice into serde_json::Value and its display text; the outcome
/// depends on the bytes alone.
#[verifier::external_body]
pub fn json_value_text(b: &Vec<u8>) -> (r: Result<String, String>)
    ensures
        match r {
            Ok(t) => json_text_of(b@) == Ok::<_, Seq<char>>(t@),
            Err(e) => json_text_of(b@) == Err::<Seq<char>, _>(e@),
        },
{
    serde_json::from_slice::<serde_json::Value>(b).map(|v| v.to_string()).map_err(|e| e.to_string())
}

} // verus!
