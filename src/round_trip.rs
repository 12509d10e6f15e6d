//! Reading back a wire request gives the values it was made from.

use vstd::prelude::*;
use crate::api::{
    duplicate_errors, header_clash, header_name, name_clash, api_errors, has_var, is_path_field, lemma_count_kind_pos, lemma_unmatched_nonempty, Api,
};
use crate::schema::{count_kind, field_set_errors, FieldSpec, Placement, PlacementKind};
use crate::template::{seg_views, SegmentView};
use crate::wire::{
    body_of, decode_field, decoded, decodes, find_first, find_path, find_var, fits, key_of,
    keyed_pairs, lookup, path_matches, path_of, query_of, values_fit, wire_of, ValueView,
};

verus! {

/// No two fields share a name.
pub open spec fn names_distinct(fs: Seq<FieldSpec>) -> bool {
    forall|a: int, b: int|
        0 <= a < fs.len() && 0 <= b < fs.len() && a != b ==> #[trigger] fs[a].name@
            != #[trigger] fs[b].name@
}

/// No two header fields share a header name.
pub open spec fn headers_distinct(fs: Seq<FieldSpec>) -> bool {
    forall|a: int, b: int|
        0 <= a < fs.len() && 0 <= b < fs.len() && a != b && fs[a].placement is Header
            && fs[b].placement is Header ==> #[trigger] key_of(fs[a]) != #[trigger] key_of(fs[b])
}

pub open spec fn keys_distinct(fs: Seq<FieldSpec>, k: PlacementKind) -> bool {
    forall|a: int, b: int|
        0 <= a < fs.len() && 0 <= b < fs.len() && a != b && fs[a].placement.kind() == k
            && fs[b].placement.kind() == k ==> #[trigger] key_of(fs[a]) != #[trigger] key_of(fs[b])
}

proof fn lemma_find_first_some(fs: Seq<FieldSpec>, k: PlacementKind)
    ensures
        find_first(fs, k) >= 0 ==> find_first(fs, k) < fs.len() && fs[find_first(fs, k)].placement.kind() == k,
        find_first(fs, k) >= -1,
    decreases fs.len(),
{
    if fs.len() > 0 {
        lemma_find_first_some(fs.drop_last(), k);
    }
}

proof fn lemma_find_first_none(fs: Seq<FieldSpec>, k: PlacementKind)
    requires
        count_kind(fs, k) == 0,
    ensures
        find_first(fs, k) == -1,
{
    lemma_find_first_some(fs, k);
    if find_first(fs, k) >= 0 {
        lemma_count_kind_pos(fs, k, find_first(fs, k));
    }
}

proof fn lemma_find_first_unique(fs: Seq<FieldSpec>, k: PlacementKind, i: int)
    requires
        0 <= i < fs.len(),
        fs[i].placement.kind() == k,
        count_kind(fs, k) <= 1,
    ensures
        find_first(fs, k) == i,
    decreases fs.len(),
{
    let p = fs.drop_last();
    if i == fs.len() - 1 {
        lemma_find_first_none(p, k);
    } else {
        lemma_find_first_unique(p, k, i);
    }
}

proof fn lemma_lookup_keyed_origin(fs: Seq<FieldSpec>, vs: Seq<ValueView>, k: PlacementKind, key: Seq<char>)
    requires
        lookup(keyed_pairs(fs, vs, k), key) is Some,
    ensures
        exists|j: int| 0 <= j < fs.len() && fs[j].placement.kind() == k && #[trigger] key_of(fs[j]) == key,
    decreases fs.len(),
{
    let p = fs.drop_last();
    if fs.last().placement.kind() == k {
        assert(keyed_pairs(fs, vs, k).drop_last() =~= keyed_pairs(p, vs, k));
    }
    if lookup(keyed_pairs(p, vs, k), key) is Some {
        lemma_lookup_keyed_origin(p, vs, k, key);
        let j = choose|j: int| 0 <= j < p.len() && p[j].placement.kind() == k && #[trigger] key_of(p[j]) == key;
        assert(fs[j] == p[j]);
    } else {
        assert(key_of(fs[fs.len() - 1]) == key);
    }
}

proof fn lemma_lookup_keyed(fs: Seq<FieldSpec>, vs: Seq<ValueView>, k: PlacementKind, i: int)
    requires
        0 <= i < fs.len(),
        fs.len() <= vs.len(),
        fs[i].placement.kind() == k,
        keys_distinct(fs, k),
    ensures
        lookup(keyed_pairs(fs, vs, k), key_of(fs[i])) == Some(vs[i].text()),
    decreases fs.len(),
{
    let p = fs.drop_last();
    let key = key_of(fs[i]);
    let kp = keyed_pairs(p, vs, k);
    if fs.last().placement.kind() == k {
        assert(keyed_pairs(fs, vs, k).drop_last() =~= kp);
    }
    if i == fs.len() - 1 {
        if lookup(keyed_pairs(p, vs, k), key) is Some {
            lemma_lookup_keyed_origin(p, vs, k, key);
            let j = choose|j: int| 0 <= j < p.len() && p[j].placement.kind() == k && #[trigger] key_of(p[j]) == key;
            assert(fs[j] == p[j]);
            assert(key_of(fs[j]) != key_of(fs[i]));
        }
    } else {
        assert forall|a: int, b: int|
            0 <= a < p.len() && 0 <= b < p.len() && a != b && p[a].placement.kind() == k
                && p[b].placement.kind() == k implies #[trigger] key_of(p[a]) != #[trigger] key_of(p[b]) by {
            assert(p[a] == fs[a] && p[b] == fs[b]);
        }
        lemma_lookup_keyed(p, vs, k, i);
    }
}

proof fn lemma_find_path_some(fs: Seq<FieldSpec>, n: Seq<char>)
    ensures
        find_path(fs, n) >= 0 ==> find_path(fs, n) < fs.len() && is_path_field(fs[find_path(fs, n)], n),
    decreases fs.len(),
{
    if fs.len() > 0 {
        lemma_find_path_some(fs.drop_last(), n);
    }
}

proof fn lemma_find_path_unique(fs: Seq<FieldSpec>, n: Seq<char>, i: int)
    requires
        0 <= i < fs.len(),
        is_path_field(fs[i], n),
        names_distinct(fs),
    ensures
        find_path(fs, n) == i,
    decreases fs.len(),
{
    let p = fs.drop_last();
    lemma_find_path_some(p, n);
    if i == fs.len() - 1 {
        if find_path(p, n) >= 0 {
            let j = find_path(p, n);
            assert(fs[j] == p[j]);
            assert(fs[j].name@ != fs[i].name@);
        }
    } else {
        assert forall|a: int, b: int| 0 <= a < p.len() && 0 <= b < p.len() && a != b
            implies #[trigger] p[a].name@ != #[trigger] p[b].name@ by {
            assert(p[a] == fs[a] && p[b] == fs[b]);
        }
        lemma_find_path_unique(p, n, i);
    }
}

proof fn lemma_find_var_some(ts: Seq<SegmentView>, n: Seq<char>)
    ensures
        find_var(ts, n) >= 0 ==> find_var(ts, n) < ts.len() && ts[find_var(ts, n)] == SegmentView::Var(n),
        has_var(ts, n) ==> find_var(ts, n) >= 0,
    decreases ts.len(),
{
    if ts.len() > 0 {
        let p = ts.drop_last();
        lemma_find_var_some(p, n);
        if find_var(p, n) >= 0 {
            assert(p[find_var(p, n)] == ts[find_var(p, n)]);
        }
        if has_var(ts, n) {
            let i = choose|i: int| 0 <= i < ts.len() && #[trigger] ts[i] == SegmentView::Var(n);
            if i < ts.len() - 1 {
                assert(p[i] == ts[i]);
            }
        }
    }
}

proof fn lemma_no_duplicates(fs: Seq<FieldSpec>)
    requires
        duplicate_errors(fs).len() == 0,
    ensures
        names_distinct(fs),
        headers_distinct(fs),
    decreases fs.len(),
{
    if fs.len() > 0 {
        let p = fs.drop_last();
        let last = fs.len() - 1;
        assert(duplicate_errors(fs).len() >= duplicate_errors(p).len());
        lemma_no_duplicates(p);
        assert(!name_clash(fs, last));
        assert(!header_clash(fs, last));
        assert forall|a: int, b: int| 0 <= a < fs.len() && 0 <= b < fs.len() && a != b
            implies #[trigger] fs[a].name@ != #[trigger] fs[b].name@ by {
            if a < last && b < last {
                assert(p[a] == fs[a] && p[b] == fs[b]);
            } else if b == last {
                assert(fs[a].name@ != fs[last].name@);
            } else {
                assert(fs[b].name@ != fs[last].name@);
            }
        }
        assert forall|a: int, b: int|
            0 <= a < fs.len() && 0 <= b < fs.len() && a != b && fs[a].placement is Header
                && fs[b].placement is Header implies #[trigger] key_of(fs[a]) != #[trigger] key_of(fs[b]) by {
            if a < last && b < last {
                assert(p[a] == fs[a] && p[b] == fs[b]);
            } else if b == last {
                assert(header_name(fs[a]) != header_name(fs[last]));
            } else {
                assert(header_name(fs[b]) != header_name(fs[last]));
            }
        }
    }
}

/// A wire request made from values that fit a well-formed endpoint reads back as those very
/// values, whatever the placements.
pub proof fn law_request_round_trip(api: Api, vs: Seq<ValueView>)
    requires
        api.wf(),
        values_fit(api.request_fields@, vs),
    ensures
        path_matches(
            seg_views(api.template@),
            wire_of(api.metadata.method, seg_views(api.template@), api.request_fields@, vs).path,
        ),
        decodes(
            seg_views(api.template@),
            wire_of(api.metadata.method, seg_views(api.template@), api.request_fields@, vs),
            api.request_fields@,
        ),
        decoded(
            seg_views(api.template@),
            wire_of(api.metadata.method, seg_views(api.template@), api.request_fields@, vs),
            api.request_fields@,
        ) == vs,
{
    let ts = seg_views(api.template@);
    let fs = api.request_fields@;
    let w = wire_of(api.metadata.method, ts, fs, vs);
    assert(field_set_errors(fs, false).len() == 0);
    assert(duplicate_errors(fs).len() == 0);
    lemma_no_duplicates(fs);
    assert(crate::api::unmatched_path_errors(crate::template::template_spec(api.metadata.path@), fs).len() == 0);
    assert forall|i: int| 0 <= i < fs.len() implies #[trigger] decode_field(ts, w, fs[i]) == Some(vs[i]) by {
        lemma_field_round_trip(api, vs, i);
    }
    assert(decoded(ts, w, fs) =~= vs);
    assert forall|j: int| 0 <= j < ts.len() implies (#[trigger] ts[j] matches SegmentView::Literal(l) ==> w.path[j] == l) by {}
}

proof fn lemma_field_round_trip(api: Api, vs: Seq<ValueView>, i: int)
    requires
        api.wf(),
        values_fit(api.request_fields@, vs),
        names_distinct(api.request_fields@),
        headers_distinct(api.request_fields@),
        0 <= i < api.request_fields@.len(),
    ensures
        decode_field(
            seg_views(api.template@),
            wire_of(api.metadata.method, seg_views(api.template@), api.request_fields@, vs),
            api.request_fields@[i],
        ) == Some(vs[i]),
{
    let ts = seg_views(api.template@);
    let fs = api.request_fields@;
    let w = wire_of(api.metadata.method, ts, fs, vs);
    let f = fs[i];
    assert(fits(f, vs[i]));
    assert(field_set_errors(fs, false).len() == 0);
    assert forall|a: int, b: int|
        0 <= a < fs.len() && 0 <= b < fs.len() && a != b && fs[a].placement.kind() == PlacementKind::Body
            && fs[b].placement.kind() == PlacementKind::Body implies #[trigger] key_of(fs[a]) != #[trigger] key_of(fs[b]) by {
        assert(fs[a].name@ != fs[b].name@);
    }
    assert forall|a: int, b: int|
        0 <= a < fs.len() && 0 <= b < fs.len() && a != b && fs[a].placement.kind() == PlacementKind::Query
            && fs[b].placement.kind() == PlacementKind::Query implies #[trigger] key_of(fs[a]) != #[trigger] key_of(fs[b]) by {
        assert(fs[a].name@ != fs[b].name@);
    }
    assert forall|a: int, b: int|
        0 <= a < fs.len() && 0 <= b < fs.len() && a != b && fs[a].placement.kind() == PlacementKind::Header
            && fs[b].placement.kind() == PlacementKind::Header implies #[trigger] key_of(fs[a]) != #[trigger] key_of(fs[b]) by {
        assert(fs[a].placement is Header && fs[b].placement is Header);
    }
    match f.placement {
        Placement::Body => {
            lemma_count_kind_pos(fs, PlacementKind::Body, i);
            lemma_find_first_none(fs, PlacementKind::NewtypeBody);
            lemma_find_first_none(fs, PlacementKind::RawNewtypeBody);
            lemma_lookup_keyed(fs, vs, PlacementKind::Body, i);
        },
        Placement::NewtypeBody => {
            lemma_find_first_unique(fs, PlacementKind::NewtypeBody, i);
        },
        Placement::RawNewtypeBody => {
            lemma_count_kind_pos(fs, PlacementKind::RawNewtypeBody, i);
            lemma_find_first_none(fs, PlacementKind::NewtypeBody);
            lemma_find_first_unique(fs, PlacementKind::RawNewtypeBody, i);
        },
        Placement::Path => {
            let tpl = crate::template::template_spec(api.metadata.path@);
            assert(crate::api::unmatched_path_errors(tpl, fs).len() == 0);
            if !has_var(tpl, f.name@) {
                lemma_unmatched_nonempty(tpl, fs, i);
            }
            lemma_find_var_some(ts, f.name@);
            lemma_find_path_unique(fs, f.name@, i);
            let k = find_var(ts, f.name@);
            assert(w.path[k] == vs[i].text());
        },
        Placement::Query => {
            lemma_count_kind_pos(fs, PlacementKind::Query, i);
            lemma_find_first_none(fs, PlacementKind::QueryMap);
            lemma_lookup_keyed(fs, vs, PlacementKind::Query, i);
        },
        Placement::QueryMap => {
            lemma_find_first_unique(fs, PlacementKind::QueryMap, i);
        },
        Placement::Header(h) => {
            lemma_lookup_keyed(fs, vs, PlacementKind::Header, i);
        },
    }
}

} // verus!
