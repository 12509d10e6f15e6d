//! The incoming form of a type: fields marked for fallible decoding are read one by one, so
//! that a field that fails to decode does not take its siblings down with it.

use vstd::prelude::*;
use vstd::string::*;
use crate::codec::{json_error, json_parse_error};
use crate::schema::same_text;

verus! {

/// How a field's incoming form is derived.
pub enum WrapIncoming {
    /// The field keeps its type.
    Keep,
    /// The field's type has an incoming form of its own, used in its place.
    Nested,
    /// The named type, inside the field's type, is replaced by its incoming form.
    NestedInner(String),
    /// The field is held in the named wrapper, which keeps a value that failed to decode.
    With(String),
    /// Each value of the named type, inside the field's type, is held in the named wrapper:
    /// (inner type, wrapper).
    InnerWith(String, String),
}

/// A field of an outgoing type.
pub struct OutgoingField {
    pub name: String,
    pub ty: String,
    pub wrap: WrapIncoming,
}

/// The type of a field in the incoming form.
pub enum IncomingType {
    /// The declared type.
    Same(String),
    /// The incoming form of the declared type.
    IncomingOf(String),
    /// The declared type with the inner type replaced by its incoming form: (declared type,
    /// inner type).
    InnerIncoming(String, String),
    /// The declared type inside a wrapper: (wrapper, declared type).
    Wrapped(String, String),
    /// The declared type with each inner value held in the wrapper: (declared type, inner
    /// type, wrapper).
    InnerWrapped(String, String, String),
}

/// A field of the incoming form.
pub struct IncomingField {
    pub name: String,
    pub ty: IncomingType,
}

/// The incoming form of a type.
pub struct IncomingDef {
    pub fields: Vec<IncomingField>,
    /// Whether the incoming form gets its own deserialization; off where the type is marked
    /// to have it supplied from elsewhere.
    pub deserialize: bool,
}

/// A wrap request that cannot be derived.
#[derive(Clone, Copy, PartialEq, Eq, Structural, Debug)]
pub enum WrapError {
    /// The field at this position names an empty type or wrapper, or an inner type that its
    /// declared type does not hold.
    Malformed(usize),
}

pub open spec fn incoming_type_of(f: OutgoingField) -> IncomingType {
    match f.wrap {
        WrapIncoming::Keep => IncomingType::Same(f.ty),
        WrapIncoming::Nested => IncomingType::IncomingOf(f.ty),
        WrapIncoming::NestedInner(inner) => IncomingType::InnerIncoming(f.ty, inner),
        WrapIncoming::With(w) => IncomingType::Wrapped(w, f.ty),
        WrapIncoming::InnerWith(inner, w) => IncomingType::InnerWrapped(f.ty, inner, w),
    }
}

pub open spec fn is_kept(f: OutgoingField) -> bool {
    f.wrap is Keep
}

/// `needle` occurs in `hay`.
pub open spec fn occurs(hay: Seq<char>, needle: Seq<char>) -> bool {
    exists|k: int| 0 <= k && k + needle.len() <= hay.len() && #[trigger] hay.subrange(k, k + needle.len()) == needle
}

/// The wrap request of a field can be derived.
pub open spec fn wrap_ok(f: OutgoingField) -> bool {
    match f.wrap {
        WrapIncoming::Keep => true,
        WrapIncoming::Nested => true,
        WrapIncoming::NestedInner(inner) => inner@.len() > 0 && occurs(f.ty@, inner@),
        WrapIncoming::With(w) => w@.len() > 0,
        WrapIncoming::InnerWith(inner, w) => inner@.len() > 0 && w@.len() > 0 && occurs(f.ty@, inner@),
    }
}

/// Whether `needle` occurs in `hay`.
pub fn text_occurs(hay: &str, needle: &str) -> (r: bool)
    ensures
        r == occurs(hay@, needle@),
{
    let h = hay.unicode_len();
    let n = needle.unicode_len();
    if n > h {
        return false;
    }
    if n == 0 {
        assert(hay@.subrange(0, 0 + needle@.len() as int) =~= needle@);
        assert(occurs(hay@, needle@));
        return true;
    }
    let mut k: usize = 0;
    while k <= h - n
        invariant
            h == hay@.len(),
            n == needle@.len(),
            1 <= n <= h,
            k <= h - n + 1,
            forall|j: int| 0 <= j < k ==> #[trigger] hay@.subrange(j, j + n) != needle@,
        decreases h - n + 1 - k,
    {
        let piece = hay.substring_char(k, k + n);
        if same_text(piece, needle) {
            return true;
        }
        k = k + 1;
    }
    assert forall|j: int| 0 <= j && j + needle@.len() <= hay@.len() implies #[trigger] hay@.subrange(
        j,
        j + needle@.len(),
    ) != needle@ by {
        assert(j < k);
    }
    false
}

fn field_wrap_ok(f: &OutgoingField) -> (r: bool)
    ensures
        r == wrap_ok(*f),
{
    match &f.wrap {
        WrapIncoming::Keep => true,
        WrapIncoming::Nested => true,
        WrapIncoming::NestedInner(inner) => inner.as_str().unicode_len() > 0 && text_occurs(
            f.ty.as_str(),
            inner.as_str(),
        ),
        WrapIncoming::With(w) => w.as_str().unicode_len() > 0,
        WrapIncoming::InnerWith(inner, w) => inner.as_str().unicode_len() > 0
            && w.as_str().unicode_len() > 0 && text_occurs(f.ty.as_str(), inner.as_str()),
    }
}

/// Derives the incoming form of a type from its fields. A wrap request that cannot be derived
/// is an error naming the first such field. Where no field is marked the type is its own
/// incoming form (`None`); else the same fields in the same order, each marked one with its
/// derived type, and its own deserialization unless `no_deserialize` is set.
pub fn derive_incoming(fields: Vec<OutgoingField>, no_deserialize: bool) -> (r: Result<
    Option<IncomingDef>,
    WrapError,
>)
    ensures
        r matches Err(WrapError::Malformed(i)) ==> i < fields@.len() && !wrap_ok(fields@[i as int])
            && forall|j: int| 0 <= j < i ==> wrap_ok(#[trigger] fields@[j]),
        r is Err <==> exists|i: int| 0 <= i < fields@.len() && !wrap_ok(#[trigger] fields@[i]),
        r matches Ok(d) ==> ((forall|i: int| 0 <= i < fields@.len() ==> is_kept(#[trigger] fields@[i]))
            <==> d is None),
        r matches Ok(Some(d)) ==> {
            &&& d.deserialize == !no_deserialize
            &&& d.fields@.len() == fields@.len()
            &&& forall|i: int|
                0 <= i < fields@.len() ==> (#[trigger] d.fields@[i]).name == fields@[i].name
                    && d.fields@[i].ty == incoming_type_of(fields@[i])
        },
{
    let mut c: usize = 0;
    while c < fields.len()
        invariant
            c <= fields@.len(),
            forall|j: int| 0 <= j < c ==> wrap_ok(#[trigger] fields@[j]),
        decreases fields.len() - c,
    {
        if !field_wrap_ok(&fields[c]) {
            return Err(WrapError::Malformed(c));
        }
        c = c + 1;
    }
    let ghost orig = fields@;
    let _n = fields.len();
    let mut rest = fields;
    let mut out: Vec<IncomingField> = Vec::new();
    let mut any = false;
    let mut i: usize = 0;
    while rest.len() > 0
        invariant
            i <= orig.len(),
            orig.len() <= usize::MAX,
            rest@ == orig.skip(i as int),
            i + rest@.len() == orig.len(),
            out@.len() == i,
            forall|j: int|
                0 <= j < i ==> (#[trigger] out@[j]).name == orig[j].name && out@[j].ty
                    == incoming_type_of(orig[j]),
            any <==> exists|j: int| 0 <= j < i && !is_kept(#[trigger] orig[j]),
        decreases rest.len(),
    {
        let f = rest.remove(0);
        assert(f == orig[i as int]);
        let OutgoingField { name, ty, wrap } = f;
        let t = match wrap {
            WrapIncoming::Keep => IncomingType::Same(ty),
            WrapIncoming::Nested => {
                any = true;
                IncomingType::IncomingOf(ty)
            },
            WrapIncoming::NestedInner(inner) => {
                any = true;
                IncomingType::InnerIncoming(ty, inner)
            },
            WrapIncoming::With(w) => {
                any = true;
                IncomingType::Wrapped(w, ty)
            },
            WrapIncoming::InnerWith(inner, w) => {
                any = true;
                IncomingType::InnerWrapped(ty, inner, w)
            },
        };
        out.push(IncomingField { name, ty: t });
        assert(rest@ =~= orig.skip(i + 1));
        i = i + 1;
    }
    if any {
        Ok(Some(IncomingDef { fields: out, deserialize: !no_deserialize }))
    } else {
        assert forall|j: int| 0 <= j < orig.len() implies is_kept(#[trigger] orig[j]) by {}
        Ok(None)
    }
}

/// A fallibly decoded value: the value, or the payload that failed and why.
pub enum Decoded {
    Value(String),
    Failed(String, String),
}

/// A field value of the incoming form.
pub enum IncomingValue {
    /// A field that must decode.
    Plain(String),
    /// A wrapped field, which may have failed.
    Fallible(Decoded),
    /// A collection field whose items are wrapped one by one.
    Items(Vec<Decoded>),
    /// A field of a type with an incoming form of its own: that form's field values.
    Nested(Vec<IncomingValue>),
}

/// What decoding a field's payload into its declared type gave.
pub enum Outcome {
    /// The payload decoded.
    Parsed,
    /// The payload did not decode, for this reason.
    Failed(String),
    /// The payload is a collection: each item's payload and, where it did not decode, why.
    Items(Vec<(String, Option<String>)>),
    /// The payload was read as the incoming form of the field's type, giving these values.
    Nested(Vec<IncomingValue>),
}

/// An item's payload and outcome as a decoded value.
pub open spec fn decoded_of(item: (String, Option<String>)) -> Decoded {
    match item.1 {
        None => Decoded::Value(item.0),
        Some(e) => Decoded::Failed(item.0, e),
    }
}

/// The outcome is one that the field's wrap request can hold.
pub open spec fn outcome_fits(wrap: WrapIncoming, o: Outcome) -> bool {
    match (wrap, o) {
        (WrapIncoming::Keep, Outcome::Parsed) => true,
        (WrapIncoming::With(_), Outcome::Parsed) => true,
        (WrapIncoming::With(_), Outcome::Failed(_)) => true,
        (WrapIncoming::InnerWith(_, _), Outcome::Items(_)) => true,
        (WrapIncoming::Nested, Outcome::Nested(_)) => true,
        (WrapIncoming::NestedInner(_), Outcome::Nested(_)) => true,
        _ => false,
    }
}

/// The incoming value of a field from its payload and outcome.
pub open spec fn value_of(wrap: WrapIncoming, payload: String, o: Outcome, v: IncomingValue) -> bool {
    match (wrap, o) {
        (WrapIncoming::Keep, Outcome::Parsed) => v == IncomingValue::Plain(payload),
        (WrapIncoming::With(_), Outcome::Parsed) => v == IncomingValue::Fallible(Decoded::Value(payload)),
        (WrapIncoming::With(_), Outcome::Failed(e)) => v == IncomingValue::Fallible(
            Decoded::Failed(payload, e),
        ),
        (WrapIncoming::InnerWith(_, _), Outcome::Items(its)) => v matches IncomingValue::Items(ds)
            && ds@ == its@.map_values(|it: (String, Option<String>)| decoded_of(it)),
        (WrapIncoming::Nested, Outcome::Nested(x)) => v == IncomingValue::Nested(x),
        (WrapIncoming::NestedInner(_), Outcome::Nested(x)) => v == IncomingValue::Nested(x),
        _ => false,
    }
}

fn wrap_kind_fits(wrap: &WrapIncoming, o: &Outcome) -> (r: bool)
    ensures
        r == outcome_fits(*wrap, *o),
{
    match (wrap, o) {
        (WrapIncoming::Keep, Outcome::Parsed) => true,
        (WrapIncoming::With(_), Outcome::Parsed) => true,
        (WrapIncoming::With(_), Outcome::Failed(_)) => true,
        (WrapIncoming::InnerWith(_, _), Outcome::Items(_)) => true,
        (WrapIncoming::Nested, Outcome::Nested(_)) => true,
        (WrapIncoming::NestedInner(_), Outcome::Nested(_)) => true,
        _ => false,
    }
}

/// Wraps each item of a collection on its own.
pub fn wrap_items(items: Vec<(String, Option<String>)>) -> (r: Vec<Decoded>)
    ensures
        r@ == items@.map_values(|it: (String, Option<String>)| decoded_of(it)),
{
    let ghost orig = items@;
    let _n = items.len();
    let mut rest = items;
    let mut out: Vec<Decoded> = Vec::new();
    let mut i: usize = 0;
    while rest.len() > 0
        invariant
            i <= orig.len(),
            orig.len() <= usize::MAX,
            rest@ == orig.skip(i as int),
            i + rest@.len() == orig.len(),
            out@ =~= orig.take(i as int).map_values(|it: (String, Option<String>)| decoded_of(it)),
        decreases rest.len(),
    {
        let it = rest.remove(0);
        assert(it == orig[i as int]);
        let (p, e) = it;
        let d = match e {
            None => Decoded::Value(p),
            Some(err) => Decoded::Failed(p, err),
        };
        out.push(d);
        assert(rest@ =~= orig.skip(i + 1));
        assert(orig.take(i + 1).map_values(|it: (String, Option<String>)| decoded_of(it)) =~= orig.take(
            i as int,
        ).map_values(|it: (String, Option<String>)| decoded_of(it)).push(decoded_of(orig[i as int])));
        i = i + 1;
    }
    assert(orig.take(i as int) =~= orig);
    out
}

/// Assembles the incoming value of a structure from each field's payload and the outcome of
/// decoding it. A wrapped field keeps its own outcome, a collection wrapped item by item keeps
/// each item's, and a nested field keeps its own incoming values; the structure fails, at the
/// first such field, only where a field's outcome is one that its wrap request cannot hold
/// (a field that is not wrapped and did not decode).
pub fn assemble_incoming(
    fields: &Vec<OutgoingField>,
    payloads: Vec<String>,
    outcomes: Vec<Outcome>,
) -> (r: Result<Vec<IncomingValue>, usize>)
    requires
        payloads@.len() == fields@.len(),
        outcomes@.len() == fields@.len(),
    ensures
        r is Ok <==> forall|i: int|
            0 <= i < fields@.len() ==> outcome_fits(#[trigger] fields@[i].wrap, outcomes@[i]),
        r matches Ok(vs) ==> vs@.len() == fields@.len() && forall|i: int|
            0 <= i < fields@.len() ==> value_of(
                fields@[i].wrap,
                payloads@[i],
                outcomes@[i],
                #[trigger] vs@[i],
            ),
        r matches Err(i) ==> i < fields@.len() && !outcome_fits(fields@[i as int].wrap, outcomes@[i as int])
            && forall|j: int| 0 <= j < i ==> outcome_fits(#[trigger] fields@[j].wrap, outcomes@[j]),
{
    let n = fields.len();
    let mut k: usize = 0;
    while k < n
        invariant
            n == fields@.len(),
            k <= n,
            outcomes@.len() == n,
            forall|j: int| 0 <= j < k ==> outcome_fits(#[trigger] fields@[j].wrap, outcomes@[j]),
        decreases n - k,
    {
        if !wrap_kind_fits(&fields[k].wrap, &outcomes[k]) {
            return Err(k);
        }
        k = k + 1;
    }
    let ghost given_payloads = payloads@;
    let ghost given_outcomes = outcomes@;
    let mut ps = payloads;
    let mut os = outcomes;
    let mut out: Vec<IncomingValue> = Vec::new();
    let mut i: usize = 0;
    while i < n
        invariant
            n == fields@.len(),
            given_payloads.len() == n && given_outcomes.len() == n,
            i <= n,
            ps@ == given_payloads.skip(i as int),
            os@ == given_outcomes.skip(i as int),
            forall|j: int| 0 <= j < n ==> outcome_fits(#[trigger] fields@[j].wrap, given_outcomes[j]),
            out@.len() == i,
            forall|j: int|
                0 <= j < i ==> value_of(fields@[j].wrap, given_payloads[j], given_outcomes[j], #[trigger] out@[j]),
        decreases n - i,
    {
        let p = ps.remove(0);
        let o = os.remove(0);
        assert(p == given_payloads[i as int] && o == given_outcomes[i as int]);
        assert(outcome_fits(fields@[i as int].wrap, o));
        let v = match (&fields[i].wrap, o) {
            (WrapIncoming::With(_), Outcome::Parsed) => IncomingValue::Fallible(Decoded::Value(p)),
            (WrapIncoming::With(_), Outcome::Failed(e)) => IncomingValue::Fallible(Decoded::Failed(p, e)),
            (_, Outcome::Items(its)) => IncomingValue::Items(wrap_items(its)),
            (_, Outcome::Nested(x)) => IncomingValue::Nested(x),
            (_, _) => IncomingValue::Plain(p),
        };
        out.push(v);
        assert(ps@ =~= given_payloads.skip(i + 1));
        assert(os@ =~= given_outcomes.skip(i + 1));
        i = i + 1;
    }
    Ok(out)
}

pub open spec fn wrapped_at(fields: Seq<OutgoingField>, i: int) -> bool {
    fields[i].wrap is With
}

/// A structure with two wrapped fields, where the payload of one fails to decode and every
/// other field decodes as its wrap request allows: the structure still decodes, the failing
/// field reports its failure with its payload, and the other wrapped field holds its value.
pub proof fn law_fallible_fields_isolated(
    fields: Seq<OutgoingField>,
    payloads: Seq<String>,
    outcomes: Seq<Outcome>,
    bad: int,
    good: int,
    v_bad: IncomingValue,
    v_good: IncomingValue,
)
    requires
        0 <= bad < fields.len(),
        0 <= good < fields.len(),
        bad != good,
        wrapped_at(fields, bad),
        wrapped_at(fields, good),
        outcomes[bad] is Failed,
        outcomes[good] is Parsed,
        value_of(fields[bad].wrap, payloads[bad], outcomes[bad], v_bad),
        value_of(fields[good].wrap, payloads[good], outcomes[good], v_good),
    ensures
        outcome_fits(fields[bad].wrap, outcomes[bad]),
        outcome_fits(fields[good].wrap, outcomes[good]),
        v_bad == IncomingValue::Fallible(Decoded::Failed(payloads[bad], outcomes[bad]->Failed_0)),
        v_good == IncomingValue::Fallible(Decoded::Value(payloads[good])),
{
}

/// A collection field wrapped item by item, where one item fails: the field still decodes,
/// with that item failed and every other item holding its value, in order.
pub proof fn law_items_isolated(
    wrap: WrapIncoming,
    payload: String,
    items: Seq<(String, Option<String>)>,
    o: Outcome,
    v: IncomingValue,
    k: int,
)
    requires
        wrap is InnerWith,
        o matches Outcome::Items(its) && its@ == items,
        0 <= k < items.len(),
        items[k].1 is Some,
        value_of(wrap, payload, o, v),
    ensures
        outcome_fits(wrap, o),
        v matches IncomingValue::Items(ds) && ds@.len() == items.len() && ds@[k] == Decoded::Failed(
            items[k].0,
            items[k].1->0,
        ) && forall|i: int|
            0 <= i < items.len() && items[i].1 is None ==> #[trigger] ds@[i] == Decoded::Value(items[i].0),
{
}

/// A nested field keeps the incoming values of its own type, failed fields among them
/// included, and does not fail the structure that holds it.
pub proof fn law_nested_isolated(wrap: WrapIncoming, payload: String, o: Outcome, v: IncomingValue)
    requires
        wrap is Nested || wrap is NestedInner,
        o is Nested,
        value_of(wrap, payload, o, v),
    ensures
        outcome_fits(wrap, o),
        v == IncomingValue::Nested(o->Nested_0),
{
}

/// The outcome of reading a payload as JSON: parsed where it is valid JSON, else failed with
/// the parser's message.
pub fn json_outcome(payload: &str) -> (o: Outcome)
    ensures
        match json_parse_error(payload@) {
            None => o is Parsed,
            Some(e) => o matches Outcome::Failed(m) && m@ == e,
        },
{
    match json_error(payload) {
        None => Outcome::Parsed,
        Some(m) => Outcome::Failed(m),
    }
}

} // verus!
