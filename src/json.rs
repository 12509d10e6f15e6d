//! The text of a JSON object body, framed from its members' keys and JSON texts.

use vstd::prelude::*;
use vstd::string::*;
use crate::codec::{json_quoted, json_string};
use crate::wire::pairs_view;

verus! {

/// The members `"key":value`, separated by `,`; `None` where a key cannot be quoted.
pub open spec fn members_text(ms: Seq<(Seq<char>, Seq<char>)>) -> Option<Seq<char>>
    decreases ms.len(),
{
    if ms.len() == 0 {
        Some(Seq::empty())
    } else {
        match (members_text(ms.drop_last()), json_quoted(ms.last().0)) {
            (Some(p), Some(k)) => if ms.len() == 1 {
                Some(k + seq![':'] + ms.last().1)
            } else {
                Some(p + seq![','] + k + seq![':'] + ms.last().1)
            },
            _ => None,
        }
    }
}

/// The object `{...}` of the members.
pub open spec fn object_text_of(ms: Seq<(Seq<char>, Seq<char>)>) -> Option<Seq<char>> {
    match members_text(ms) {
        Some(t) => Some(seq!['{'] + t + seq!['}']),
        None => None,
    }
}

/// Writes a JSON object from its members' keys and JSON texts, in order.
pub fn object_text(members: &Vec<(String, String)>) -> (r: Option<String>)
    ensures
        match r {
            Some(t) => object_text_of(pairs_view(members@)) == Some(t@),
            None => object_text_of(pairs_view(members@)) is None,
        },
{
    let ghost ms = pairs_view(members@);
    proof {
        reveal_strlit("{");
        reveal_strlit("}");
        reveal_strlit(",");
        reveal_strlit(":");
    }
    let mut out = String::new();
    let mut i: usize = 0;
    while i < members.len()
        invariant
            i <= members@.len(),
            ms == pairs_view(members@),
            members_text(ms.take(i as int)) == Some(out@),
        decreases members.len() - i,
    {
        assert(ms.take(i + 1).drop_last() =~= ms.take(i as int));
        assert(ms.take(i + 1).last() == ms[i as int]);
        assert(ms[i as int] == (members@[i as int].0@, members@[i as int].1@));
        let key = match json_string(members[i].0.as_str()) {
            Some(k) => k,
            None => {
                proof {
                    lemma_members_none(ms, i + 1);
                }
                return None;
            },
        };
        let ghost before = out@;
        proof {
            reveal_strlit(",");
            reveal_strlit(":");
        }
        if i > 0 {
            out.append(",");
        }
        out.append(key.as_str());
        out.append(":");
        out.append(members[i].1.as_str());
        if i == 0 {
            assert(before =~= Seq::<char>::empty());
            assert(out@ =~= key@ + seq![':'] + ms[i as int].1);
        } else {
            assert(out@ =~= before + seq![','] + key@ + seq![':'] + ms[i as int].1);
        }
        assert(members_text(ms.take(i + 1)) == Some(out@));
        i = i + 1;
    }
    assert(ms.take(i as int) =~= ms);
    let mut obj = String::new();
    obj.append("{");
    obj.append(out.as_str());
    obj.append("}");
    assert(obj@ =~= seq!['{'] + out@ + seq!['}']);
    Some(obj)
}

proof fn lemma_members_none(ms: Seq<(Seq<char>, Seq<char>)>, k: int)
    requires
        0 <= k <= ms.len(),
        members_text(ms.take(k)) is None,
    ensures
        members_text(ms) is None,
    decreases ms.len() - k,
{
    if k < ms.len() {
        assert(ms.take(k + 1).drop_last() =~= ms.take(k));
        lemma_members_none(ms, k + 1);
    } else {
        assert(ms.take(k) =~= ms);
    }
}

} // verus!
