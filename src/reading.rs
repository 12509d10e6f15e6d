//! Reading a received request: the body bytes first, then the target text, then the fields.

use vstd::prelude::*;
use crate::api::Api;
use crate::codec::{json_members, json_members_of, json_text_of, json_value_text, urldecoded};
use crate::path::{parse_target, path_reads, read_segment, target_parts};
use crate::schema::{FieldSpec, PlacementKind};
use crate::template::{seg_views, split_on, SegmentView};
use crate::wire::{
    decode_failure_ok, decode_fields, decoded, decodes, pairs_view, path_matches, values_view,
    copy_bytes, copy_pairs, response_as_request, response_from_wire, BodyView, FieldValue,
    FromHttpRequestError, FromHttpResponseError, RawResponse, RawResponseError, ServerError,
    WireResponse, WireResponseView, FIRST_ERROR_STATUS, RawFailure, RawRequest, RawRequestError,
    WireBody, WireRequest, WireRequestView,
};

verus! {

/// Some field has a placement of kind `k`.
pub open spec fn has_kind(fs: Seq<FieldSpec>, k: PlacementKind) -> bool {
    exists|i: int| 0 <= i < fs.len() && (#[trigger] fs[i]).placement.kind() == k
}

/// Body bytes read in the form the fields give the body: raw bytes where there is a raw body
/// field, else one JSON value where there is a newtype body field, else a JSON object.
pub open spec fn body_read(fs: Seq<FieldSpec>, b: Seq<u8>) -> Result<BodyView, Seq<char>> {
    if has_kind(fs, PlacementKind::RawNewtypeBody) {
        Ok(BodyView::Raw(b))
    } else if has_kind(fs, PlacementKind::NewtypeBody) {
        match json_text_of(b) {
            Ok(t) => Ok(BodyView::Json(t)),
            Err(e) => Err(e),
        }
    } else {
        match json_members_of(b) {
            Ok(p) => Ok(BodyView::Object(p)),
            Err(e) => Err(e),
        }
    }
}

/// Whether some field has a placement of kind `k`.
pub fn any_kind(fs: &Vec<FieldSpec>, k: PlacementKind) -> (r: bool)
    ensures
        r == has_kind(fs@, k),
{
    let mut i: usize = 0;
    while i < fs.len()
        invariant
            i <= fs@.len(),
            forall|j: int| 0 <= j < i ==> (#[trigger] fs@[j]).placement.kind() != k,
        decreases fs.len() - i,
    {
        if fs[i].placement.get_kind() == k {
            return true;
        }
        i = i + 1;
    }
    false
}

/// Reads body bytes in the form that the fields give the body.
pub fn read_body(fs: &Vec<FieldSpec>, b: &Vec<u8>) -> (r: Result<WireBody, String>)
    ensures
        match r {
            Ok(body) => body_read(fs@, b@) == Ok::<_, Seq<char>>(body@),
            Err(e) => body_read(fs@, b@) == Err::<BodyView, _>(e@),
        },
{
    if any_kind(fs, PlacementKind::RawNewtypeBody) {
        Ok(WireBody::Raw(copy_bytes(b)))
    } else if any_kind(fs, PlacementKind::NewtypeBody) {
        match json_value_text(b) {
            Ok(t) => Ok(WireBody::Json(t)),
            Err(e) => Err(e),
        }
    } else {
        match json_members(b) {
            Ok(p) => Ok(WireBody::Object(p)),
            Err(e) => Err(e),
        }
    }
}

/// The target's path and query read.
pub open spec fn target_reads(ts: Seq<SegmentView>, t: Seq<char>) -> bool {
    &&& path_reads(ts, target_parts(t).0)
    &&& match target_parts(t).1 {
        Some(q) => urldecoded(q) is Some,
        None => true,
    }
}

/// The decoded path segments of a target.
pub open spec fn target_path(ts: Seq<SegmentView>, t: Seq<char>) -> Seq<Seq<char>> {
    Seq::new(ts.len(), |i: int| read_segment(ts[i], split_on(target_parts(t).0, '/')[i])->0)
}

/// The query pairs of a target.
pub open spec fn target_query(t: Seq<char>) -> Seq<(Seq<char>, Seq<char>)> {
    match target_parts(t).1 {
        Some(q) => urldecoded(q)->0,
        None => Seq::empty(),
    }
}

/// The wire request that a received request reads as, once its body and target have read.
pub open spec fn raw_wire(ts: Seq<SegmentView>, raw: RawRequest, body: BodyView) -> WireRequestView {
    WireRequestView {
        method: raw.method,
        path: target_path(ts, raw.target@),
        query: target_query(raw.target@),
        headers: pairs_view(raw.headers@),
        body,
    }
}

/// Converts a received request into a typed request. The body bytes are read first, then the
/// target, then the fields; whatever fails, the error keeps the request as it came.
pub fn request_from_http(api: &Api, raw: RawRequest) -> (r: Result<Vec<FieldValue>, FromHttpRequestError>)
    ensures
        r matches Err(e) ==> (e matches FromHttpRequestError::Malformed(m) && m.request == raw),
        match body_read(api.request_fields@, raw.body@) {
            Err(msg) => r matches Err(FromHttpRequestError::Malformed(m)) && m.failure matches RawFailure::Body(x)
                && x@ == msg,
            Ok(bv) => if !target_reads(seg_views(api.template@), raw.target@) {
                r matches Err(FromHttpRequestError::Malformed(m)) && m.failure is Target
            } else {
                let ts = seg_views(api.template@);
                let wv = raw_wire(ts, raw, bv);
                &&& r is Ok <==> path_matches(ts, wv.path) && decodes(ts, wv, api.request_fields@)
                &&& r matches Ok(vs) ==> values_view(vs@) == decoded(ts, wv, api.request_fields@)
                &&& r matches Err(FromHttpRequestError::Malformed(m)) ==> (m.failure matches RawFailure::Fields(
                    f,
                ) && decode_failure_ok(ts, wv, api.request_fields@, f))
            },
        },
{
    let body = match read_body(&api.request_fields, &raw.body) {
        Ok(b) => b,
        Err(msg) => {
            return Err(FromHttpRequestError::Malformed(RawRequestError { failure: RawFailure::Body(msg), request: raw }));
        },
    };
    let target = match parse_target(&api.template, raw.target.as_str()) {
        Some(t) => t,
        None => {
            return Err(FromHttpRequestError::Malformed(RawRequestError { failure: RawFailure::Target, request: raw }));
        },
    };
    let ghost ts = seg_views(api.template@);
    let headers = copy_pairs(&raw.headers);
    assert(pairs_view(headers@) == pairs_view(raw.headers@));
    let w = WireRequest { method: raw.method, path: target.path, query: target.query, headers, body };
    assert(w@.path =~= target_path(ts, raw.target@));
    assert(w@ == raw_wire(ts, raw, body_read(api.request_fields@, raw.body@)->Ok_0));
    match decode_fields(&api.template, &w, &api.request_fields) {
        Ok(vs) => Ok(vs),
        Err(f) => Err(FromHttpRequestError::Malformed(RawRequestError { failure: RawFailure::Fields(f), request: raw })),
    }
}

/// Converts a received response into a typed response. A status of 400 or more gives a server
/// error, with the body kept as bytes, whatever they hold; otherwise the body bytes are read
/// first, then the fields.
pub fn response_from_http(api: &Api, raw: RawResponse) -> (r: Result<Vec<FieldValue>, FromHttpResponseError>)
    ensures
        raw.status >= FIRST_ERROR_STATUS ==> (r matches Err(FromHttpResponseError::Http(e))
            && e.response.status == raw.status && pairs_view(e.response.headers@) == pairs_view(raw.headers@)
            && e.response.body@ == BodyView::Raw(raw.body@)),
        raw.status < FIRST_ERROR_STATUS ==> match body_read(api.response_fields@, raw.body@) {
            Err(msg) => r matches Err(FromHttpResponseError::Malformed(m)) && m.message@ == msg && m.response
                == raw,
            Ok(bv) => {
                let wv = WireResponseView { status: raw.status, headers: pairs_view(raw.headers@), body: bv };
                &&& r is Ok <==> decodes(Seq::empty(), response_as_request(wv), api.response_fields@)
                &&& r matches Ok(vs) ==> values_view(vs@) == decoded(
                    Seq::empty(),
                    response_as_request(wv),
                    api.response_fields@,
                )
                &&& r matches Err(e) ==> (e matches FromHttpResponseError::Deserialization(d) && d.response@ == wv
                    && decode_failure_ok(Seq::empty(), response_as_request(wv), api.response_fields@, d.failure))
            },
        },
{
    if raw.status >= FIRST_ERROR_STATUS {
        let RawResponse { status, headers, body } = raw;
        return Err(FromHttpResponseError::Http(ServerError { response: WireResponse { status, headers, body: WireBody::Raw(body) } }));
    }
    let body = match read_body(&api.response_fields, &raw.body) {
        Ok(b) => b,
        Err(message) => return Err(FromHttpResponseError::Malformed(RawResponseError { message, response: raw })),
    };
    let RawResponse { status, headers, body: _ } = raw;
    let w = WireResponse { status, headers, body };
    response_from_wire(api, w)
}

} // verus!
