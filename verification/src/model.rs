//! The mathematical model of the map: its contents as a sequence of pairs,
//! and what lookup, removal and insertion mean on such a sequence.
//!
//! A lookup is a search from the front for the first pair that the key
//! equals, so the model starts with searches in any sequence, by any
//! predicate; the two sides of the map are two families of predicates.

use vstd::prelude::*;
use vstd::std_specs::cmp::PartialEqSpec;

verus! {

/// `i` is the least index of `s` whose item satisfies `p`.
pub open spec fn is_first_where<T>(s: Seq<T>, p: spec_fn(T) -> bool, i: int) -> bool {
    &&& 0 <= i < s.len()
    &&& p(s[i])
    &&& forall|j: int| 0 <= j < i ==> !p(#[trigger] s[j])
}

/// The least index of `s` whose item satisfies `p`, if any item does.
pub open spec fn first_where<T>(s: Seq<T>, p: spec_fn(T) -> bool) -> Option<int> {
    if exists|i: int| is_first_where(s, p, i) {
        Some(choose|i: int| is_first_where(s, p, i))
    } else {
        None
    }
}

/// No item of `s` satisfies `p`.
pub open spec fn none_where<T>(s: Seq<T>, p: spec_fn(T) -> bool) -> bool {
    forall|i: int| 0 <= i < s.len() ==> !p(#[trigger] s[i])
}

/// At most one item of `s` satisfies `p`.
pub open spec fn at_most_one_where<T>(s: Seq<T>, p: spec_fn(T) -> bool) -> bool {
    forall|i: int, j: int|
        0 <= i < s.len() && 0 <= j < s.len() && p(#[trigger] s[i]) && p(#[trigger] s[j]) ==> i
            == j
}

/// No item of `s` before index `n` satisfies `p`, or some index below `n` is
/// the least one whose item does.
proof fn lemma_least_index_exists<T>(s: Seq<T>, p: spec_fn(T) -> bool, n: int)
    requires
        0 <= n <= s.len(),
    ensures
        (forall|j: int| 0 <= j < n ==> !p(#[trigger] s[j])) || (exists|i: int|
            i < n && is_first_where(s, p, i)),
    decreases n,
{
    if n > 0 {
        lemma_least_index_exists(s, p, n - 1);
        if forall|j: int| 0 <= j < n - 1 ==> !p(#[trigger] s[j]) {
            if p(s[n - 1]) {
                assert(is_first_where(s, p, n - 1));
            }
        }
    }
}

/// `first_where` returns the least index whose item satisfies `p`, and `None`
/// where no item does.
pub proof fn lemma_first_where<T>(s: Seq<T>, p: spec_fn(T) -> bool)
    ensures
        match first_where(s, p) {
            Some(i) => is_first_where(s, p, i),
            None => none_where(s, p),
        },
{
    lemma_least_index_exists(s, p, s.len() as int);
}

/// The least index whose item satisfies `p` is the one `first_where` returns.
pub proof fn lemma_first_where_is<T>(s: Seq<T>, p: spec_fn(T) -> bool, i: int)
    requires
        is_first_where(s, p, i),
    ensures
        first_where(s, p) == Some(i),
{
    lemma_first_where(s, p);
}

/// A search finds nothing exactly where no item satisfies `p`.
pub proof fn lemma_first_where_none<T>(s: Seq<T>, p: spec_fn(T) -> bool)
    ensures
        first_where(s, p) is None <==> none_where(s, p),
{
    lemma_first_where(s, p);
}

/// A search of `s.push(x)` finds what a search of `s` finds; where that is
/// nothing, it finds `x` if `x` satisfies `p`.
pub proof fn lemma_first_where_push<T>(s: Seq<T>, p: spec_fn(T) -> bool, x: T)
    ensures
        first_where(s.push(x), p) == match first_where(s, p) {
            Some(i) => Some(i),
            None => if p(x) {
                Some(s.len() as int)
            } else {
                None
            },
        },
{
    let t = s.push(x);
    lemma_first_where(s, p);
    lemma_first_where(t, p);
    match first_where(s, p) {
        Some(i) => {
            // the items before `i` are those of `s`
            assert(is_first_where(t, p, i));
        },
        None => {
            if p(x) {
                assert(is_first_where(t, p, s.len() as int));
            }
        },
    }
}

/// Appending `x` to `s` leaves at most one item that satisfies `p`, if `s` had
/// at most one and, where `x` satisfies `p`, none.
pub proof fn lemma_push_at_most_one<T>(s: Seq<T>, p: spec_fn(T) -> bool, x: T)
    requires
        at_most_one_where(s, p),
        p(x) ==> none_where(s, p),
    ensures
        at_most_one_where(s.push(x), p),
{
    // two items of `s.push(x)` that satisfy `p` are two items of `s`, or one
    // of them is `x`, and then `s` has none
    let t = s.push(x);
    assert forall|j: int, k: int|
        0 <= j < t.len() && 0 <= k < t.len() && p(#[trigger] t[j]) && p(
            #[trigger] t[k],
        ) implies j == k by {
        assert(j < s.len() ==> t[j] == s[j]);
        assert(k < s.len() ==> t[k] == s[k]);
    }
}

/// `s` without its item at `i`, the last item standing in its place: the
/// order of the others among themselves is kept, that of the last item is not.
pub open spec fn swap_remove<T>(s: Seq<T>, i: int) -> Seq<T> {
    s.update(i, s.last()).drop_last()
}

/// `s` after the removal of the item that a search found, if it found one.
pub open spec fn without<T>(s: Seq<T>, found: Option<int>) -> Seq<T> {
    match found {
        Some(i) => swap_remove(s, i),
        None => s,
    }
}

/// What `swap_remove(s, i)` holds at each index: the last item of `s` at `i`,
/// and elsewhere what `s` holds there.
pub proof fn lemma_swap_remove<T>(s: Seq<T>, i: int)
    requires
        0 <= i < s.len(),
    ensures
        swap_remove(s, i).len() == s.len() - 1,
        forall|j: int|
            0 <= j < s.len() - 1 ==> #[trigger] swap_remove(s, i)[j] == if j == i {
                s.last()
            } else {
                s[j]
            },
{
}

/// `swap_remove(s, i)` holds the items of `s` but one occurrence of `s[i]`.
pub proof fn lemma_swap_remove_multiset<T>(s: Seq<T>, i: int)
    requires
        0 <= i < s.len(),
    ensures
        swap_remove(s, i).to_multiset() == s.to_multiset().remove(s[i]),
{
    broadcast use vstd::seq_lib::group_to_multiset_ensures;

    // `u` is `s` with `s[i]` exchanged for `s.last()`, and it is
    // `swap_remove(s, i)` with `s.last()` appended
    let u = s.update(i, s.last());
    assert(u =~= swap_remove(s, i).push(s.last()));
    assert(swap_remove(s, i).to_multiset() =~= u.to_multiset().remove(s.last()));
    assert(s.to_multiset().remove(s[i]) =~= s.to_multiset().remove(s[i]).insert(
        s.last(),
    ).remove(s.last()));
}

/// Where no item of `s` satisfies `p`, none of `swap_remove(s, i)` does.
pub proof fn lemma_swap_remove_none_where<T>(s: Seq<T>, p: spec_fn(T) -> bool, i: int)
    requires
        0 <= i < s.len(),
        none_where(s, p),
    ensures
        none_where(swap_remove(s, i), p),
{
    lemma_swap_remove(s, i);
}

/// Where at most one item of `s` satisfies `p`, at most one of
/// `swap_remove(s, i)` does.
pub proof fn lemma_swap_remove_at_most_one<T>(s: Seq<T>, p: spec_fn(T) -> bool, i: int)
    requires
        0 <= i < s.len(),
        at_most_one_where(s, p),
    ensures
        at_most_one_where(swap_remove(s, i), p),
{
    // each item of `swap_remove(s, i)` is an item of `s`, at an index of its
    // own
    lemma_swap_remove(s, i);
    let t = swap_remove(s, i);
    assert forall|j: int, k: int|
        0 <= j < t.len() && 0 <= k < t.len() && p(#[trigger] t[j]) && p(
            #[trigger] t[k],
        ) implies j == k by {
        assert(t[j] == s[if j == i { s.len() - 1 } else { j }]);
        assert(t[k] == s[if k == i { s.len() - 1 } else { k }]);
    }
}

/// Where `s[i]` is the only item of `s` that satisfies `p`, no item of
/// `swap_remove(s, i)` does.
pub proof fn lemma_swap_remove_the_only<T>(s: Seq<T>, p: spec_fn(T) -> bool, i: int)
    requires
        0 <= i < s.len(),
        p(s[i]),
        at_most_one_where(s, p),
    ensures
        none_where(swap_remove(s, i), p),
{
    // each item of `swap_remove(s, i)` is an item of `s` other than `s[i]`
    lemma_swap_remove(s, i);
    let t = swap_remove(s, i);
    assert forall|j: int| 0 <= j < t.len() implies !p(#[trigger] t[j]) by {
        assert(t[j] == s[if j == i { s.len() - 1 } else { j }]);
    }
}

/// The pairs whose first member `key` equals.
pub open spec fn first_is<A, B, Q: ?Sized + PartialEq<A>>(key: &Q) -> spec_fn((A, B)) -> bool {
    |e: (A, B)| key.eq_spec(&e.0)
}

/// The pairs whose second member `key` equals.
pub open spec fn second_is<A, B, Q: ?Sized + PartialEq<B>>(key: &Q) -> spec_fn((A, B)) -> bool {
    |e: (A, B)| key.eq_spec(&e.1)
}

/// Where a lookup of `key` among the first members stops: at the first pair
/// of `s`, in storage order, whose first member `key` equals.
pub open spec fn position_by_first<A, B, Q: ?Sized + PartialEq<A>>(
    s: Seq<(A, B)>,
    key: &Q,
) -> Option<int> {
    first_where(s, first_is::<A, B, Q>(key))
}

/// Where a lookup of `key` among the second members stops: at the first pair
/// of `s`, in storage order, whose second member `key` equals.
pub open spec fn position_by_second<A, B, Q: ?Sized + PartialEq<B>>(
    s: Seq<(A, B)>,
    key: &Q,
) -> Option<int> {
    first_where(s, second_is::<A, B, Q>(key))
}

/// The pair that a lookup of `key` among the first members finds.
pub open spec fn entry_by_first<A, B, Q: ?Sized + PartialEq<A>>(
    s: Seq<(A, B)>,
    key: &Q,
) -> Option<(A, B)> {
    match position_by_first(s, key) {
        Some(i) => Some(s[i]),
        None => None,
    }
}

/// The pair that a lookup of `key` among the second members finds.
pub open spec fn entry_by_second<A, B, Q: ?Sized + PartialEq<B>>(
    s: Seq<(A, B)>,
    key: &Q,
) -> Option<(A, B)> {
    match position_by_second(s, key) {
        Some(i) => Some(s[i]),
        None => None,
    }
}

/// What a lookup of `key` among the first members returns: the second member
/// of the pair it finds.
pub open spec fn lookup_by_first<'a, A, B, Q: ?Sized + PartialEq<A>>(
    s: Seq<(A, B)>,
    key: &Q,
) -> Option<&'a B> {
    match position_by_first(s, key) {
        Some(i) => Some(&s[i].1),
        None => None,
    }
}

/// What a lookup of `key` among the second members returns: the first member
/// of the pair it finds.
pub open spec fn lookup_by_second<'a, A, B, Q: ?Sized + PartialEq<B>>(
    s: Seq<(A, B)>,
    key: &Q,
) -> Option<&'a A> {
    match position_by_second(s, key) {
        Some(i) => Some(&s[i].0),
        None => None,
    }
}

/// `s` after the removal of the pair that a lookup of `key` among the first
/// members finds.
pub open spec fn removed_by_first<A, B, Q: ?Sized + PartialEq<A>>(
    s: Seq<(A, B)>,
    key: &Q,
) -> Seq<(A, B)> {
    without(s, position_by_first(s, key))
}

/// `s` after the removal of the pair that a lookup of `key` among the second
/// members finds.
pub open spec fn removed_by_second<A, B, Q: ?Sized + PartialEq<B>>(
    s: Seq<(A, B)>,
    key: &Q,
) -> Seq<(A, B)> {
    without(s, position_by_second(s, key))
}

/// The pairs that collide with the pair `(first, second)`: those whose first
/// member `first` equals, and those whose second member `second` equals.
pub open spec fn collides_with<A: PartialEq, B: PartialEq>(first: A, second: B) -> spec_fn(
    (A, B),
) -> bool {
    |e: (A, B)| first.eq_spec(&e.0) || second.eq_spec(&e.1)
}

/// The index of the pair that gives way when `(first, second)` is inserted:
/// the one found by `first`, else the one found by `second`. Never more than
/// one pair gives way, even where the two lookups find different pairs.
pub open spec fn displaced_position<A: PartialEq, B: PartialEq>(
    s: Seq<(A, B)>,
    first: A,
    second: B,
) -> Option<int> {
    match position_by_first(s, &first) {
        Some(i) => Some(i),
        None => position_by_second(s, &second),
    }
}

/// The pair that gives way when `(first, second)` is inserted.
pub open spec fn displaced<A: PartialEq, B: PartialEq>(
    s: Seq<(A, B)>,
    first: A,
    second: B,
) -> Option<(A, B)> {
    match displaced_position(s, first, second) {
        Some(i) => Some(s[i]),
        None => None,
    }
}

/// `s` after the insertion of `(first, second)`: the displaced pair is
/// removed, then the new pair is appended.
pub open spec fn inserted<A: PartialEq, B: PartialEq>(
    s: Seq<(A, B)>,
    first: A,
    second: B,
) -> Seq<(A, B)> {
    without(s, displaced_position(s, first, second)).push((first, second))
}

/// `s` after the insertion of each pair of `pairs`, in their order.
pub open spec fn inserted_all<A: PartialEq, B: PartialEq>(
    s: Seq<(A, B)>,
    pairs: Seq<(A, B)>,
) -> Seq<(A, B)>
    decreases pairs.len(),
{
    if pairs.len() == 0 {
        s
    } else {
        inserted(inserted_all(s, pairs.drop_last()), pairs.last().0, pairs.last().1)
    }
}

/// No value equals the first member of more than one pair of `s`.
pub open spec fn unique_firsts<A: PartialEq, B>(s: Seq<(A, B)>) -> bool {
    forall|key: A| at_most_one_where(s, #[trigger] first_is::<A, B, A>(&key))
}

/// No value equals the second member of more than one pair of `s`.
pub open spec fn unique_seconds<A, B: PartialEq>(s: Seq<(A, B)>) -> bool {
    forall|key: B| at_most_one_where(s, #[trigger] second_is::<A, B, B>(&key))
}

/// The pairs of `s` pair the first members one to one with the second
/// members: a lookup on either side has at most one pair to find.
///
/// Insertion keeps this as long as the new pair collides with one pair at
/// most (see `laws::lemma_insert_keeps_one_to_one`); loading pairs in bulk and
/// writing through mutable references can break it.
pub open spec fn one_to_one<A: PartialEq, B: PartialEq>(s: Seq<(A, B)>) -> bool {
    unique_firsts(s) && unique_seconds(s)
}

/// The first members of the pairs of `s` differ from one another.
pub open spec fn distinct_firsts<A: PartialEq, B>(s: Seq<(A, B)>) -> bool {
    forall|i: int, j: int|
        0 <= i < s.len() && 0 <= j < s.len() && i != j ==> !(#[trigger] s[i]).0.eq_spec(
            &(#[trigger] s[j]).0,
        )
}

/// The second members of the pairs of `s` differ from one another.
pub open spec fn distinct_seconds<A, B: PartialEq>(s: Seq<(A, B)>) -> bool {
    forall|i: int, j: int|
        0 <= i < s.len() && 0 <= j < s.len() && i != j ==> !(#[trigger] s[i]).1.eq_spec(
            &(#[trigger] s[j]).1,
        )
}

/// `s` and `t` are equal as two maps compare: they hold as many pairs, and
/// each pair of `s` equals, member by member, the pair of `t` at its index.
pub open spec fn pairs_eq<A: PartialEq, B: PartialEq>(s: Seq<(A, B)>, t: Seq<(A, B)>) -> bool {
    &&& s.len() == t.len()
    &&& forall|i: int|
        0 <= i < s.len() ==> (#[trigger] s[i]).0.eq_spec(&t[i].0) && s[i].1.eq_spec(&t[i].1)
}

} // verus!
