//! What holds of the map's operations taken together.
//!
//! Each law is stated over the functions of [`model`](crate::model), in which
//! the contracts of the map's methods are written, so it holds of every map
//! whose `==` is what `eq_spec` says it is. The equality of the two types need
//! not be an equivalence: a law that needs a member to equal itself, or
//! equality to be symmetric and transitive, says so.

use crate::iter::pair_refs;
use crate::model::{
    at_most_one_where, collides_with, displaced, displaced_position, distinct_firsts,
    distinct_seconds, entry_by_first, entry_by_second, first_is, inserted, inserted_all,
    lemma_first_where, lemma_first_where_is, lemma_first_where_none, lemma_first_where_push,
    lemma_push_at_most_one, lemma_swap_remove, lemma_swap_remove_at_most_one,
    lemma_swap_remove_multiset,
    lemma_swap_remove_none_where, lemma_swap_remove_the_only, lookup_by_first, lookup_by_second,
    none_where, one_to_one, pairs_eq, position_by_first, position_by_second, removed_by_first,
    removed_by_second, second_is, swap_remove, without,
};
use vstd::laws_eq::obeys_eq_spec_properties;
use vstd::prelude::*;
use vstd::std_specs::cmp::PartialEqSpec;

verus! {

/// What is left of `s` when `(first, second)` is inserted, before the new pair
/// is appended.
spec fn kept<A: PartialEq, B: PartialEq>(s: Seq<(A, B)>, first: A, second: B) -> Seq<(A, B)> {
    without(s, displaced_position(s, first, second))
}

/// Where at most one pair of `s` collides with `(first, second)`, the pair
/// that gives way is that one: none of those that stay collides with it.
proof fn lemma_kept_collides_with_none<A: PartialEq, B: PartialEq>(
    s: Seq<(A, B)>,
    first: A,
    second: B,
)
    requires
        at_most_one_where(s, collides_with(first, second)),
    ensures
        none_where(kept(s, first, second), collides_with(first, second)),
        inserted(s, first, second) == kept(s, first, second).push((first, second)),
{
    // a pair that either member finds collides, so with one such pair at
    // most, the pair that gives way is the only one
    let both = collides_with(first, second);
    lemma_first_where(s, first_is::<A, B, A>(&first));
    lemma_first_where(s, second_is::<A, B, B>(&second));
    match displaced_position(s, first, second) {
        Some(i) => {
            assert(both(s[i]));
            lemma_swap_remove_the_only(s, both, i);
        },
        None => {
            assert(none_where(s, both));
        },
    }
}

/// In a one-to-one map, a new pair collides with one pair at most, unless its
/// first member is found in one pair and its second member in another.
pub proof fn lemma_one_to_one_collisions<A: PartialEq, B: PartialEq>(
    s: Seq<(A, B)>,
    first: A,
    second: B,
)
    requires
        one_to_one(s),
        position_by_first(s, &first) is None || position_by_second(s, &second) is None
            || position_by_first(s, &first) == position_by_second(s, &second),
    ensures
        at_most_one_where(s, collides_with(first, second)),
{
    // a pair that collides is found by `first` or by `second`; each of the
    // two finds one pair at most, and where both find one, it is the same
    let by_first = first_is::<A, B, A>(&first);
    let by_second = second_is::<A, B, B>(&second);
    assert(at_most_one_where(s, by_first));
    assert(at_most_one_where(s, by_second));
    lemma_first_where(s, by_first);
    lemma_first_where(s, by_second);
}

/// After `insert(first, second)`, a lookup of `first` finds `second` and a
/// lookup of `second` finds `first`, as long as each of the two equals itself
/// and the new pair collided with one pair of the map at most.
///
/// Where `first` is found in one pair and `second` in another, only the
/// former gives way, and a lookup of `second` goes on finding the latter.
pub proof fn lemma_insert_then_lookup<A: PartialEq, B: PartialEq>(
    s: Seq<(A, B)>,
    first: A,
    second: B,
)
    requires
        first.eq_spec(&first),
        second.eq_spec(&second),
        at_most_one_where(s, collides_with(first, second)),
    ensures
        lookup_by_first(inserted(s, first, second), &first) == Some(&second),
        lookup_by_second(inserted(s, first, second), &second) == Some(&first),
{
    // no pair that stays is found by `first` or by `second`, so each finds
    // the new pair
    let rest = kept(s, first, second);
    let by_first = first_is::<A, B, A>(&first);
    let by_second = second_is::<A, B, B>(&second);
    lemma_kept_collides_with_none(s, first, second);
    assert(none_where(rest, by_first));
    assert(none_where(rest, by_second));
    lemma_first_where_none(rest, by_first);
    lemma_first_where_none(rest, by_second);
    lemma_first_where_push(rest, by_first, (first, second));
    lemma_first_where_push(rest, by_second, (first, second));
}

/// Insertion keeps the pairs one to one, as long as equality on each side is
/// symmetric and transitive and the new pair collides with one pair of the
/// map at most.
pub proof fn lemma_insert_keeps_one_to_one<A: PartialEq, B: PartialEq>(
    s: Seq<(A, B)>,
    first: A,
    second: B,
)
    requires
        obeys_eq_spec_properties::<A>(),
        obeys_eq_spec_properties::<B>(),
        one_to_one(s),
        at_most_one_where(s, collides_with(first, second)),
    ensures
        one_to_one(inserted(s, first, second)),
{
    reveal(obeys_eq_spec_properties);
    let rest = kept(s, first, second);
    let found = displaced_position(s, first, second);
    lemma_kept_collides_with_none(s, first, second);
    assert forall|key: A|
        at_most_one_where(rest.push((first, second)), #[trigger] first_is::<A, B, A>(&key)) by {
        let p = first_is::<A, B, A>(&key);
        assert(at_most_one_where(s, p));
        if found is Some {
            lemma_swap_remove_at_most_one(s, p, found->0);
        }
        if key.eq_spec(&first) {
            // a pair that stays and that `key` equals would be one that
            // `first` equals
            assert forall|j: int| 0 <= j < rest.len() implies !p(#[trigger] rest[j]) by {
                if key.eq_spec(&rest[j].0) {
                    assert(first.eq_spec(&key) && first.eq_spec(&rest[j].0));
                    assert(collides_with(first, second)(rest[j]));
                }
            }
        }
        lemma_push_at_most_one(rest, p, (first, second));
    }
    assert forall|key: B|
        at_most_one_where(rest.push((first, second)), #[trigger] second_is::<A, B, B>(&key)) by {
        let p = second_is::<A, B, B>(&key);
        assert(at_most_one_where(s, p));
        if found is Some {
            lemma_swap_remove_at_most_one(s, p, found->0);
        }
        if key.eq_spec(&second) {
            // a pair that stays and that `key` equals would be one that
            // `second` equals
            assert forall|j: int| 0 <= j < rest.len() implies !p(#[trigger] rest[j]) by {
                if key.eq_spec(&rest[j].1) {
                    assert(second.eq_spec(&key) && second.eq_spec(&rest[j].1));
                    assert(collides_with(first, second)(rest[j]));
                }
            }
        }
        lemma_push_at_most_one(rest, p, (first, second));
    }
}

/// Removal keeps the pairs one to one, whichever pair is removed.
pub proof fn lemma_remove_keeps_one_to_one<A: PartialEq, B: PartialEq>(s: Seq<(A, B)>, i: int)
    requires
        0 <= i < s.len(),
        one_to_one(s),
    ensures
        one_to_one(swap_remove(s, i)),
{
    assert forall|key: A|
        at_most_one_where(swap_remove(s, i), #[trigger] first_is::<A, B, A>(&key)) by {
        assert(at_most_one_where(s, first_is::<A, B, A>(&key)));
        lemma_swap_remove_at_most_one(s, first_is::<A, B, A>(&key), i);
    }
    assert forall|key: B|
        at_most_one_where(swap_remove(s, i), #[trigger] second_is::<A, B, B>(&key)) by {
        assert(at_most_one_where(s, second_is::<A, B, B>(&key)));
        lemma_swap_remove_at_most_one(s, second_is::<A, B, B>(&key), i);
    }
}

/// Inserting a pair whose first member is found in the map, and whose second
/// member is not, removes the pair that the first member finds, and that pair
/// only, and hands it back; a lookup of the new second member then finds the
/// new first member.
pub proof fn lemma_insert_with_known_first<A: PartialEq, B: PartialEq>(
    s: Seq<(A, B)>,
    first: A,
    second: B,
)
    requires
        position_by_first(s, &first) is Some,
        position_by_second(s, &second) is None,
    ensures
        displaced(s, first, second) == entry_by_first(s, &first),
        inserted(s, first, second) == removed_by_first(s, &first).push((first, second)),
        inserted(s, first, second).to_multiset() == s.to_multiset().remove(
            entry_by_first(s, &first)->0,
        ).insert((first, second)),
        second.eq_spec(&second) ==> lookup_by_second(inserted(s, first, second), &second)
            == Some(&first),
{
    broadcast use vstd::seq_lib::group_to_multiset_ensures;

    let i = position_by_first(s, &first)->0;
    let by_second = second_is::<A, B, B>(&second);
    lemma_first_where(s, first_is::<A, B, A>(&first));
    lemma_first_where_none(s, by_second);
    lemma_swap_remove_multiset(s, i);
    lemma_swap_remove_none_where(s, by_second, i);
    lemma_first_where_none(swap_remove(s, i), by_second);
    lemma_first_where_push(swap_remove(s, i), by_second, (first, second));
}

/// Inserting a pair whose second member is found in the map, and whose first
/// member is not, removes the pair that the second member finds, and that
/// pair only, and hands it back; a lookup of the new first member then finds
/// the new second member.
pub proof fn lemma_insert_with_known_second<A: PartialEq, B: PartialEq>(
    s: Seq<(A, B)>,
    first: A,
    second: B,
)
    requires
        position_by_first(s, &first) is None,
        position_by_second(s, &second) is Some,
    ensures
        displaced(s, first, second) == entry_by_second(s, &second),
        inserted(s, first, second) == removed_by_second(s, &second).push((first, second)),
        inserted(s, first, second).to_multiset() == s.to_multiset().remove(
            entry_by_second(s, &second)->0,
        ).insert((first, second)),
        first.eq_spec(&first) ==> lookup_by_first(inserted(s, first, second), &first) == Some(
            &second,
        ),
{
    broadcast use vstd::seq_lib::group_to_multiset_ensures;

    let i = position_by_second(s, &second)->0;
    let by_first = first_is::<A, B, A>(&first);
    lemma_first_where(s, second_is::<A, B, B>(&second));
    lemma_first_where_none(s, by_first);
    lemma_swap_remove_multiset(s, i);
    lemma_swap_remove_none_where(s, by_first, i);
    lemma_first_where_none(swap_remove(s, i), by_first);
    lemma_first_where_push(swap_remove(s, i), by_first, (first, second));
}

/// Inserting a pair whose first member is found in one pair of the map and
/// whose second member in another removes the former only. The latter stays,
/// ahead of the new pair, which stands last: a lookup of the second member
/// does not find the new pair, and goes on finding what it found if it had
/// one pair to find. The map then holds two pairs with equal second members,
/// if `second` equals itself.
pub proof fn lemma_insert_with_both_known<A: PartialEq, B: PartialEq>(
    s: Seq<(A, B)>,
    first: A,
    second: B,
)
    requires
        position_by_first(s, &first) is Some,
        position_by_second(s, &second) is Some,
        position_by_first(s, &first) != position_by_second(s, &second),
    ensures
        displaced(s, first, second) == entry_by_first(s, &first),
        inserted(s, first, second) == removed_by_first(s, &first).push((first, second)),
        position_by_second(inserted(s, first, second), &second) is Some,
        position_by_second(inserted(s, first, second), &second) != Some(s.len() - 1),
        at_most_one_where(s, second_is::<A, B, B>(&second)) ==> lookup_by_second(
            inserted(s, first, second),
            &second,
        ) == lookup_by_second(s, &second),
        second.eq_spec(&second) ==> !at_most_one_where(
            inserted(s, first, second),
            second_is::<A, B, B>(&second),
        ),
{
    let i = position_by_first(s, &first)->0;
    let j = position_by_second(s, &second)->0;
    let by_second = second_is::<A, B, B>(&second);
    let rest = swap_remove(s, i);
    lemma_first_where(s, first_is::<A, B, A>(&first));
    lemma_first_where(s, by_second);
    lemma_swap_remove(s, i);
    // the pair found by `second` is still there: where it was, or, if it was
    // the last, where the removed pair was
    let moved = if j == s.len() - 1 { i } else { j };
    assert(rest[moved] == s[j]);
    lemma_first_where(rest, by_second);
    lemma_first_where_push(rest, by_second, (first, second));
    if second.eq_spec(&second) {
        // and the new pair is another that `second` finds
        let after = inserted(s, first, second);
        assert(by_second(after[moved]) && by_second(after[rest.len() as int]));
    }
    if at_most_one_where(s, by_second) {
        // no pair ahead of it is found by `second`, as none but `s[j]` was
        assert forall|k: int| 0 <= k < moved implies !by_second(#[trigger] rest[k]) by {
            assert(rest[k] == s[if k == i { s.len() - 1 } else { k }]);
        }
        lemma_first_where_is(rest, by_second, moved);
    }
}

/// After a removal by `key`, a second removal by `key` finds nothing and
/// leaves the map as it is, as long as `key` equalled the first member of one
/// pair at most.
pub proof fn lemma_remove_by_first_again<A, B, Q: ?Sized + PartialEq<A>>(s: Seq<(A, B)>, key: &Q)
    requires
        at_most_one_where(s, first_is::<A, B, Q>(key)),
    ensures
        entry_by_first(removed_by_first(s, key), key) is None,
        removed_by_first(removed_by_first(s, key), key) == removed_by_first(s, key),
{
    let p = first_is::<A, B, Q>(key);
    lemma_first_where(s, p);
    match position_by_first(s, key) {
        Some(i) => {
            lemma_swap_remove_the_only(s, p, i);
        },
        None => {},
    }
    lemma_first_where_none(removed_by_first(s, key), p);
}

/// After a removal by `key`, a second removal by `key` finds nothing and
/// leaves the map as it is, as long as `key` equalled the second member of one
/// pair at most.
pub proof fn lemma_remove_by_second_again<A, B, Q: ?Sized + PartialEq<B>>(s: Seq<(A, B)>, key: &Q)
    requires
        at_most_one_where(s, second_is::<A, B, Q>(key)),
    ensures
        entry_by_second(removed_by_second(s, key), key) is None,
        removed_by_second(removed_by_second(s, key), key) == removed_by_second(s, key),
{
    let p = second_is::<A, B, Q>(key);
    lemma_first_where(s, p);
    match position_by_second(s, key) {
        Some(i) => {
            lemma_swap_remove_the_only(s, p, i);
        },
        None => {},
    }
    lemma_first_where_none(removed_by_second(s, key), p);
}

/// Pairs whose first members differ from one another, and whose second
/// members do, are all kept when they are inserted one after the other into an
/// empty map, in their order.
pub proof fn lemma_insert_distinct_pairs<A: PartialEq, B: PartialEq>(pairs: Seq<(A, B)>)
    requires
        distinct_firsts(pairs),
        distinct_seconds(pairs),
    ensures
        inserted_all(Seq::empty(), pairs) == pairs,
    decreases pairs.len(),
{
    if pairs.len() > 0 {
        // the pairs before the last are all kept, and none of them is found by
        // a member of the last, which is therefore appended to them
        let before = pairs.drop_last();
        let last = pairs.last();
        assert forall|i: int| 0 <= i < before.len() implies before[i] == pairs[i] by {}
        lemma_insert_distinct_pairs(before);
        assert(none_where(before, first_is::<A, B, A>(&last.0)));
        assert(none_where(before, second_is::<A, B, B>(&last.1)));
        lemma_first_where_none(before, first_is::<A, B, A>(&last.0));
        lemma_first_where_none(before, second_is::<A, B, B>(&last.1));
        assert(before.push(last) =~= pairs);
    }
}

/// After pairs whose first members differ from one another, and whose second
/// members do, were inserted into an empty map, a lookup of either member of
/// any of them finds the other, as long as the member equals itself.
pub proof fn lemma_distinct_pairs_found<A: PartialEq, B: PartialEq>(pairs: Seq<(A, B)>, i: int)
    requires
        distinct_firsts(pairs),
        distinct_seconds(pairs),
        0 <= i < pairs.len(),
    ensures
        pairs[i].0.eq_spec(&pairs[i].0) ==> lookup_by_first(
            inserted_all(Seq::empty(), pairs),
            &pairs[i].0,
        ) == Some(&pairs[i].1),
        pairs[i].1.eq_spec(&pairs[i].1) ==> lookup_by_second(
            inserted_all(Seq::empty(), pairs),
            &pairs[i].1,
        ) == Some(&pairs[i].0),
{
    lemma_insert_distinct_pairs(pairs);
    if pairs[i].0.eq_spec(&pairs[i].0) {
        lemma_first_where_is(pairs, first_is::<A, B, A>(&pairs[i].0), i);
    }
    if pairs[i].1.eq_spec(&pairs[i].1) {
        lemma_first_where_is(pairs, second_is::<A, B, B>(&pairs[i].1), i);
    }
}

/// Whatever pairs are inserted, and whichever give way, the map then holds no
/// pair that satisfies `p` unless it held one before or one was inserted.
pub proof fn lemma_inserted_all_none_where<A: PartialEq, B: PartialEq>(
    s: Seq<(A, B)>,
    pairs: Seq<(A, B)>,
    p: spec_fn((A, B)) -> bool,
)
    requires
        none_where(s, p),
        none_where(pairs, p),
    ensures
        none_where(inserted_all(s, pairs), p),
    decreases pairs.len(),
{
    if pairs.len() > 0 {
        let before = pairs.drop_last();
        let last = pairs.last();
        assert forall|i: int| 0 <= i < before.len() implies before[i] == pairs[i] by {}
        lemma_inserted_all_none_where(s, before, p);
        // the last insertion removes a pair, if any, and appends one that
        // does not satisfy `p`
        let mid = inserted_all(s, before);
        let found = displaced_position(mid, last.0, last.1);
        lemma_first_where(mid, first_is::<A, B, A>(&last.0));
        lemma_first_where(mid, second_is::<A, B, B>(&last.1));
        if found is Some {
            lemma_swap_remove_none_where(mid, p, found->0);
        }
        assert(!p(last));
    }
}

/// A key that equals the first member of no pair that was inserted is not
/// found among the first members.
pub proof fn lemma_never_inserted_first<A: PartialEq, B: PartialEq, Q: ?Sized + PartialEq<A>>(
    pairs: Seq<(A, B)>,
    key: &Q,
)
    requires
        none_where(pairs, first_is::<A, B, Q>(key)),
    ensures
        lookup_by_first(inserted_all(Seq::empty(), pairs), key) is None,
{
    lemma_inserted_all_none_where(Seq::empty(), pairs, first_is::<A, B, Q>(key));
    lemma_first_where_none(inserted_all(Seq::empty(), pairs), first_is::<A, B, Q>(key));
}

/// A key that equals the second member of no pair that was inserted is not
/// found among the second members.
pub proof fn lemma_never_inserted_second<A: PartialEq, B: PartialEq, Q: ?Sized + PartialEq<B>>(
    pairs: Seq<(A, B)>,
    key: &Q,
)
    requires
        none_where(pairs, second_is::<A, B, Q>(key)),
    ensures
        lookup_by_second(inserted_all(Seq::empty(), pairs), key) is None,
{
    lemma_inserted_all_none_where(Seq::empty(), pairs, second_is::<A, B, Q>(key));
    lemma_first_where_none(inserted_all(Seq::empty(), pairs), second_is::<A, B, Q>(key));
}

/// A map rebuilt from what `iter` yields holds the pairs of the first map in
/// their order, so the two are equal as long as every member equals itself.
///
/// `collected` holds the pairs as they were gathered from the iterator, each
/// made of what the two yielded references point to; `BidirMap::from_iter`
/// makes a map of just these pairs.
pub proof fn lemma_iter_round_trip<A: PartialEq, B: PartialEq>(
    s: Seq<(A, B)>,
    collected: Seq<(A, B)>,
)
    requires
        collected.len() == pair_refs(s).len(),
        forall|i: int|
            0 <= i < collected.len() ==> #[trigger] collected[i] == (
                *pair_refs(s)[i].0,
                *pair_refs(s)[i].1,
            ),
    ensures
        collected == s,
        (forall|i: int|
            0 <= i < s.len() ==> (#[trigger] s[i]).0.eq_spec(&s[i].0) && s[i].1.eq_spec(&s[i].1))
            ==> pairs_eq(collected, s),
{
    assert(collected =~= s);
}

/// One call that changes a map by insertion or removal.
pub enum Change<A, B> {
    /// `insert(first, second)`
    Insert(A, B),
    /// `remove_by_first(&key)`
    RemoveByFirst(A),
    /// `remove_by_second(&key)`
    RemoveBySecond(B),
}

/// `s` after the call `change`.
pub open spec fn changed<A: PartialEq, B: PartialEq>(
    s: Seq<(A, B)>,
    change: Change<A, B>,
) -> Seq<(A, B)> {
    match change {
        Change::Insert(first, second) => inserted(s, first, second),
        Change::RemoveByFirst(key) => removed_by_first(s, &key),
        Change::RemoveBySecond(key) => removed_by_second(s, &key),
    }
}

/// The pair that the call `change` hands back on `s`: the one that an
/// insertion displaced, or the one that a removal found.
pub open spec fn handed_back<A: PartialEq, B: PartialEq>(
    s: Seq<(A, B)>,
    change: Change<A, B>,
) -> Option<(A, B)> {
    match change {
        Change::Insert(first, second) => displaced(s, first, second),
        Change::RemoveByFirst(key) => entry_by_first(s, &key),
        Change::RemoveBySecond(key) => entry_by_second(s, &key),
    }
}

/// `s` after the calls `changes`, made in their order.
pub open spec fn changed_by_all<A: PartialEq, B: PartialEq>(
    s: Seq<(A, B)>,
    changes: Seq<Change<A, B>>,
) -> Seq<(A, B)>
    decreases changes.len(),
{
    if changes.len() == 0 {
        s
    } else {
        changed(changed_by_all(s, changes.drop_last()), changes.last())
    }
}

/// How many of `changes` are insertions.
pub open spec fn insertions<A, B>(changes: Seq<Change<A, B>>) -> nat
    decreases changes.len(),
{
    if changes.len() == 0 {
        0
    } else {
        insertions(changes.drop_last()) + if changes.last() is Insert {
            1nat
        } else {
            0nat
        }
    }
}

/// How many of the calls `changes`, made in their order on `s`, took a pair
/// out of the map: the removals that found one, and the insertions that
/// displaced one.
pub open spec fn removals<A: PartialEq, B: PartialEq>(
    s: Seq<(A, B)>,
    changes: Seq<Change<A, B>>,
) -> nat
    decreases changes.len(),
{
    if changes.len() == 0 {
        0
    } else {
        removals(s, changes.drop_last()) + if handed_back(
            changed_by_all(s, changes.drop_last()),
            changes.last(),
        ) is Some {
            1nat
        } else {
            0nat
        }
    }
}

/// A call changes the number of pairs by one for an insertion, less one if it
/// hands a pair back.
pub proof fn lemma_change_len<A: PartialEq, B: PartialEq>(s: Seq<(A, B)>, change: Change<A, B>)
    ensures
        changed(s, change).len() == s.len() + (if change is Insert {
            1int
        } else {
            0int
        }) - (if handed_back(s, change) is Some {
            1int
        } else {
            0int
        }),
{
    match change {
        Change::Insert(first, second) => {
            lemma_first_where(s, first_is::<A, B, A>(&first));
            lemma_first_where(s, second_is::<A, B, B>(&second));
        },
        Change::RemoveByFirst(key) => {
            lemma_first_where(s, first_is::<A, B, A>(&key));
        },
        Change::RemoveBySecond(key) => {
            lemma_first_where(s, second_is::<A, B, B>(&key));
        },
    }
}

/// The number of pairs in a map is the number it started with, plus the
/// number of insertions, minus the number of calls that took a pair out.
pub proof fn lemma_len_counts_changes<A: PartialEq, B: PartialEq>(
    s: Seq<(A, B)>,
    changes: Seq<Change<A, B>>,
)
    ensures
        changed_by_all(s, changes).len() == s.len() + insertions(changes) - removals(s, changes),
    decreases changes.len(),
{
    if changes.len() > 0 {
        lemma_len_counts_changes(s, changes.drop_last());
        lemma_change_len(changed_by_all(s, changes.drop_last()), changes.last());
    }
}

} // verus!
