//! The order in which the services of a snapshot are drawn.
use crate::scene::service::ServiceData;
use std::collections::HashMap;
use vstd::prelude::*;
use vstd::std_specs::iter::IteratorSpec;

verus! {

broadcast use vstd::std_specs::hash::group_hash_axioms;

/// Each element is less than every later one.
pub open spec fn strictly_ascending(s: Seq<i32>) -> bool {
    forall|i: int, j: int| 0 <= i < j < s.len() ==> s[i] < s[j]
}

/// The sequence holds the members of the set and nothing else.
pub open spec fn lists(s: Seq<i32>, ids: Set<i32>) -> bool {
    forall|v: i32| s.contains(v) <==> ids.contains(v)
}

/// The members of a finite set of ids in ascending order.
pub open spec fn ascending_ids(ids: Set<i32>) -> Seq<i32> {
    choose|s: Seq<i32>| strictly_ascending(s) && lists(s, ids)
}

/// A set has at most one ascending listing.
pub proof fn lemma_ascending_unique(a: Seq<i32>, b: Seq<i32>, ids: Set<i32>)
    requires
        strictly_ascending(a),
        lists(a, ids),
        strictly_ascending(b),
        lists(b, ids),
    ensures
        a == b,
    decreases a.len(),
{
    if a.len() == 0 {
        if b.len() > 0 {
            assert(b.contains(b[0]));
            assert(a.contains(b[0]));
        }
        assert(a =~= b);
    } else {
        assert(a.contains(a[0]));
        assert(b.contains(a[0]));
        let top = a.last();
        assert(a.contains(top));
        assert(b.contains(top));
        assert(b.contains(b.last()));
        assert(a.contains(b.last()));
        assert(top == b.last());
        let rest_a = a.drop_last();
        let rest_b = b.drop_last();
        let rest = ids.remove(top);
        assert forall|v: i32| rest_a.contains(v) <==> rest.contains(v) by {
            if rest_a.contains(v) {
                let k = choose|k: int| 0 <= k < rest_a.len() && rest_a[k] == v;
                assert(a[k] == v);
                assert(a.contains(v));
            }
            if rest.contains(v) {
                assert(a.contains(v));
                let k = choose|k: int| 0 <= k < a.len() && a[k] == v;
                assert(rest_a[k] == v);
            }
        }
        assert forall|v: i32| rest_b.contains(v) <==> rest.contains(v) by {
            if rest_b.contains(v) {
                let k = choose|k: int| 0 <= k < rest_b.len() && rest_b[k] == v;
                assert(b[k] == v);
                assert(b.contains(v));
            }
            if rest.contains(v) {
                assert(b.contains(v));
                let k = choose|k: int| 0 <= k < b.len() && b[k] == v;
                assert(rest_b[k] == v);
            }
        }
        lemma_ascending_unique(rest_a, rest_b, rest);
        assert(a =~= rest_a.push(top));
        assert(b =~= rest_b.push(top));
    }
}

/// A sequence that lists a set in ascending order is its ascending listing.
pub proof fn lemma_ascending_ids(s: Seq<i32>, ids: Set<i32>)
    requires
        strictly_ascending(s),
        lists(s, ids),
    ensures
        s == ascending_ids(ids),
{
    let chosen = ascending_ids(ids);
    assert(strictly_ascending(chosen) && lists(chosen, ids));
    lemma_ascending_unique(s, chosen, ids);
}

/// Inserting `id` before the first element that is not below it keeps an
/// ascending sequence ascending, and adds `id` to what it holds.
proof fn lemma_insert_ascending(before: Seq<i32>, at: int, id: i32)
    requires
        strictly_ascending(before),
        0 <= at <= before.len(),
        forall|k: int| 0 <= k < at ==> before[k] < id,
        at < before.len() ==> id < before[at],
    ensures
        strictly_ascending(before.insert(at, id)),
        forall|v: i32|
            #[trigger] before.insert(at, id).contains(v) <==> before.contains(v) || v == id,
{
    let after = before.insert(at, id);
    assert forall|i: int, j: int| 0 <= i < j < after.len() implies after[i] < after[j] by {
        if j < at {
            assert(after[i] == before[i] && after[j] == before[j]);
        } else if j == at {
            assert(after[i] == before[i]);
        } else if i < at {
            assert(after[i] == before[i] && after[j] == before[j - 1]);
        } else if i == at {
            assert(after[j] == before[j - 1]);
            assert(at <= j - 1 < before.len());
        } else {
            assert(after[i] == before[i - 1] && after[j] == before[j - 1]);
        }
    }
    assert forall|v: i32| after.contains(v) <==> before.contains(v) || v == id by {
        if after.contains(v) {
            let k = choose|k: int| 0 <= k < after.len() && after[k] == v;
            if k < at {
                assert(before[k] == v);
            } else if k > at {
                assert(before[k - 1] == v);
            }
        }
        if before.contains(v) {
            let k = choose|k: int| 0 <= k < before.len() && before[k] == v;
            if k < at {
                assert(after[k] == v);
            } else {
                assert(after[k + 1] == v);
            }
        }
        if v == id {
            assert(after[at] == v);
        }
    }
}

/// Inserts `id` at its place into an ascending sequence, unless it is there.
fn insert_ascending(ids: &mut Vec<i32>, id: i32)
    requires
        strictly_ascending(old(ids)@),
    ensures
        strictly_ascending(final(ids)@),
        forall|v: i32| #[trigger] final(ids)@.contains(v) <==> old(ids)@.contains(v) || v == id,
{
    let mut at: usize = 0;
    while at < ids.len() && ids[at] < id
        invariant
            at <= ids.len(),
            ids@ == old(ids)@,
            forall|k: int| 0 <= k < at ==> ids@[k] < id,
        decreases ids.len() - at,
    {
        at += 1;
    }
    if at < ids.len() && ids[at] == id {
        assert(ids@.contains(id));
    } else {
        proof {
            lemma_insert_ascending(ids@, at as int, id);
        }
        ids.insert(at, id);
    }
}

/// The ids of a snapshot in ascending order.
pub fn sorted_ids(services: &HashMap<i32, ServiceData>) -> (ids: Vec<i32>)
    ensures
        strictly_ascending(ids@),
        lists(ids@, services@.dom()),
        ids@ == ascending_ids(services@.dom()),
{
    let mut ids: Vec<i32> = Vec::new();
    let ghost keys: Seq<i32> = services.keys().remaining().unref();
    let ghost mut seen: int = 0;
    for key in it: services.keys()
        invariant
            strictly_ascending(ids@),
            keys == it.seq().unref(),
            keys.to_set() == services@.dom(),
            seen == it.index(),
            forall|v: i32| ids@.contains(v) <==> exists|k: int| 0 <= k < seen && keys[k] == v,
    {
        insert_ascending(&mut ids, *key);
        proof {
            assert(keys[seen] == *key);
            seen = seen + 1;
        }
    }
    proof {
        assert(seen == keys.len());
        assert forall|v: i32| ids@.contains(v) <==> services@.dom().contains(v) by {
            if ids@.contains(v) {
                let k = choose|k: int| 0 <= k < seen && keys[k] == v;
                assert(keys.to_set().contains(keys[k]));
            }
            if services@.dom().contains(v) {
                assert(keys.to_set().contains(v));
            }
        }
        lemma_ascending_ids(ids@, services@.dom());
    }
    ids
}

} // verus!
