//! Grouping consecutive elements that share a key.
//!
//! [`group_by`] walks a vector once, applies a caller-supplied key
//! function to each element, and cuts the vector into maximal runs of
//! equal keys.  The contract pins the result down: the groups are
//! non-empty, their concatenation is exactly the input, and there is a
//! key per group under which every element of the group answers, with
//! neighbouring groups answering differently.

use vstd::prelude::*;

verus! {

/// The element sequences of a vector of vectors.
pub open spec fn group_views<T>(groups: Seq<Vec<T>>) -> Seq<Seq<T>> {
    groups.map_values(|g: Vec<T>| g@)
}

/// `keys` assigns one key to each group: every element of a group is an
/// answer of the key function to that group's key, and neighbouring
/// groups have different keys.
pub open spec fn keys_match<T, F: Fn(&T) -> u64>(
    grouper: F,
    groups: Seq<Seq<T>>,
    keys: Seq<u64>,
) -> bool {
    &&& keys.len() == groups.len()
    &&& forall|g: int, i: int|
        0 <= g < groups.len() && 0 <= i < groups[g].len() ==> call_ensures(
            grouper,
            (&groups[g][i],),
            keys[g],
        )
    &&& forall|g: int| 0 <= g < groups.len() - 1 ==> #[trigger] keys[g] != keys[g + 1]
}

/// Cuts `items` into maximal runs of elements whose keys under `grouper`
/// are equal, preserving order.
pub fn group_by<T, F: Fn(&T) -> u64>(items: Vec<T>, grouper: F) -> (groups: Vec<Vec<T>>)
    requires
        forall|t: &T| #[trigger] call_requires(grouper, (t,)),
    ensures
        group_views(groups@).flatten() == items@,
        forall|g: int| 0 <= g < groups@.len() ==> groups@[g]@.len() > 0,
        exists|keys: Seq<u64>| keys_match(grouper, group_views(groups@), keys),
{
    broadcast use Seq::group_seq_flatten;

    if items.len() == 0 {
        let groups: Vec<Vec<T>> = Vec::new();
        proof {
            assert(group_views(groups@) =~= Seq::<Seq<T>>::empty());
            assert(group_views(groups@).flatten() =~= items@);
            assert(keys_match(grouper, group_views(groups@), Seq::<u64>::empty()));
        }
        return groups;
    }
    let mut remaining = items;
    let ghost all = remaining@;
    let first = remaining.remove(0);
    let mut current_key = grouper(&first);
    let mut current: Vec<T> = Vec::new();
    current.push(first);
    let mut groups: Vec<Vec<T>> = Vec::new();
    let ghost mut keys: Seq<u64> = Seq::empty();
    while remaining.len() > 0
        invariant
            forall|t: &T| #[trigger] call_requires(grouper, (t,)),
            group_views(groups@).flatten() + current@ + remaining@ == all,
            current@.len() > 0,
            forall|g: int| 0 <= g < groups@.len() ==> groups@[g]@.len() > 0,
            keys_match(grouper, group_views(groups@), keys),
            forall|i: int|
                0 <= i < current@.len() ==> call_ensures(grouper, (&current@[i],), current_key),
            groups@.len() > 0 ==> keys[keys.len() - 1] != current_key,
        decreases remaining@.len(),
    {
        let ghost flat_before = group_views(groups@).flatten();
        let item = remaining.remove(0);
        let key = grouper(&item);
        if key == current_key {
            current.push(item);
            proof {
                assert(group_views(groups@).flatten() + current@ + remaining@ =~= all);
            }
        } else {
            let ghost groups_before = group_views(groups@);
            let mut full: Vec<T> = Vec::new();
            core::mem::swap(&mut full, &mut current);
            proof {
                keys = keys.push(current_key);
            }
            groups.push(full);
            current.push(item);
            current_key = key;
            proof {
                assert(group_views(groups@) =~= groups_before.push(full@));
                groups_before.lemma_flatten_push(full@);
                assert(group_views(groups@).flatten() =~= flat_before + full@);
                assert(group_views(groups@).flatten() + current@ + remaining@ =~= all);
                assert(keys_match(grouper, group_views(groups@), keys));
            }
        }
    }
    let ghost groups_before = group_views(groups@);
    let ghost last_group = current@;
    groups.push(current);
    proof {
        keys = keys.push(current_key);
        assert(group_views(groups@) =~= groups_before.push(last_group));
        assert(group_views(groups@).flatten() =~= all);
        assert(keys_match(grouper, group_views(groups@), keys));
    }
    groups
}

} // verus!
