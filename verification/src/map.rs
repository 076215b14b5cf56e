//! The map itself: a vector of pairs, searched from the front.

use crate::iter::{
    first_column, pair_refs, second_column, FirstColumn, Iter, IterMut, SecondColumn,
};
use crate::laws::{lemma_insert_keeps_one_to_one, lemma_remove_keeps_one_to_one};
use crate::model::{
    at_most_one_where, collides_with, displaced, entry_by_first, entry_by_second, first_is,
    inserted, inserted_all, lemma_first_where_is, lemma_first_where_none, lookup_by_first,
    lookup_by_second, one_to_one, pairs_eq, position_by_first, position_by_second,
    removed_by_first, removed_by_second, second_is, swap_remove,
};
use std::borrow::Borrow;
use vstd::laws_eq::obeys_eq;
use vstd::prelude::*;
use vstd::std_specs::cmp::PartialEqSpec;
use vstd::std_specs::iter::IteratorSpec;

verus! {

/// A bidirectional map.
///
/// Either member of a pair serves as the key to the other. The interface
/// follows that of `BTreeMap`, except that wherever a key would be given there
/// are two functions, one for each side (`get` becomes `get_by_first` and
/// `get_by_second`).
///
/// Lookups walk the pairs in storage order: `O(n)`.
#[derive(Debug, Hash)]
pub struct BidirMap<Kv1: PartialEq, Kv2: PartialEq> {
    cont: Vec<(Kv1, Kv2)>,
}

impl<Kv1: PartialEq, Kv2: PartialEq> View for BidirMap<Kv1, Kv2> {
    type V = Seq<(Kv1, Kv2)>;

    /// The pairs of the map, in storage order.
    closed spec fn view(&self) -> Seq<(Kv1, Kv2)> {
        self.cont@
    }
}

impl<Kv1: PartialEq, Kv2: PartialEq> BidirMap<Kv1, Kv2> {
    /// The number of pairs, as `len` returns it.
    pub open spec fn spec_len(&self) -> usize {
        self@.len() as usize
    }

    /// Whether the map holds no pair, as `is_empty` returns it.
    pub open spec fn spec_is_empty(&self) -> bool {
        self@.len() == 0
    }

    /// The pairs of the map pair its first members one to one with its second
    /// members: whatever the key, a lookup has at most one pair to find.
    ///
    /// A new map is well formed. `insert` keeps it so unless the new pair
    /// collides with two pairs of the map at once; the removals keep it so;
    /// `from_iter`, `extend`, `iter_mut` and the two `get_mut` leave it to the
    /// caller.
    pub open spec fn well_formed(&self) -> bool {
        one_to_one(self@)
    }

    /// The map holds no more pairs than a `usize` counts.
    pub proof fn lemma_len_in_range(&self)
        ensures
            self@.len() <= usize::MAX,
            self.spec_len() == self@.len(),
    {
        assert(self.cont.len() == self.cont@.len());
    }

    /// Creates an empty map.
    pub fn new() -> (map: Self)
        ensures
            map@ == Seq::<(Kv1, Kv2)>::empty(),
            map.well_formed(),
    {
        BidirMap { cont: Vec::new() }
    }

    /// Creates an empty map with room for at least `capacity` pairs.
    ///
    /// The room is set aside for pairs to come and is no part of what the map
    /// holds: whatever `capacity` is, the map is the one that `new` makes.
    pub fn with_capacity(capacity: usize) -> (map: Self)
        ensures
            map@ == Seq::<(Kv1, Kv2)>::empty(),
            map.well_formed(),
    {
        BidirMap { cont: Vec::with_capacity(capacity) }
    }

    /// Creates a map that holds `pairs` as they are, in their order.
    ///
    /// The pairs are not inserted one by one: none gives way to a later one
    /// with an equal member. Where two of them have equal first members, or
    /// equal second members, the map holds both, and a lookup finds the
    /// earlier one.
    pub fn from_iter(pairs: Vec<(Kv1, Kv2)>) -> (map: Self)
        ensures
            map@ == pairs@,
    {
        BidirMap { cont: pairs }
    }

    /// Appends `pairs` as they are, in their order.
    ///
    /// As with `from_iter`, no pair gives way to another.
    pub fn extend(&mut self, pairs: Vec<(Kv1, Kv2)>)
        ensures
            final(self)@ == old(self)@ + pairs@,
    {
        let mut pairs = pairs;
        self.cont.append(&mut pairs);
    }

    /// Removes every pair.
    pub fn clear(&mut self)
        ensures
            final(self)@ == Seq::<(Kv1, Kv2)>::empty(),
            final(self).len() == 0,
            final(self).is_empty(),
            final(self).well_formed(),
    {
        self.cont.clear()
    }

    /// The iterator that `iter` returns.
    pub closed spec fn spec_iter(&self) -> Iter<'_, Kv1, Kv2> {
        Iter::spec_over(&self.cont)
    }

    /// Returns an iterator over the pairs of the map, in storage order.
    #[verifier::when_used_as_spec(spec_iter)]
    pub fn iter(&self) -> (it: Iter<'_, Kv1, Kv2>)
        ensures
            it == self.spec_iter(),
            it.rest() == self@,
            it.remaining() == pair_refs(self@),
            it.decrease() is Some,
            it.initial_value_relation(&self.spec_iter()),
    {
        Iter::over(&self.cont)
    }

    /// Returns an iterator over the pairs of the map, in storage order, that
    /// lets both members of each pair be changed.
    ///
    /// The iterator borrows all the pairs: what the map holds afterwards is
    /// what they hold when the iterator is done with.
    pub fn iter_mut(&mut self) -> (it: IterMut<'_, Kv1, Kv2>)
        ensures
            it.rest@ == old(self)@,
            final(self)@ == final(it.rest)@,
    {
        IterMut { rest: self.cont.as_mut_slice() }
    }

    /// The iterator that `first_col` returns.
    pub closed spec fn spec_first_col(&self) -> FirstColumn<'_, Kv1, Kv2> {
        FirstColumn::spec_over(&self.cont)
    }

    /// Returns an iterator over the first members of the pairs, in storage
    /// order.
    #[verifier::when_used_as_spec(spec_first_col)]
    pub fn first_col(&self) -> (it: FirstColumn<'_, Kv1, Kv2>)
        ensures
            it == self.spec_first_col(),
            it.rest() == self@,
            it.remaining() == first_column(self@),
            it.decrease() is Some,
            it.initial_value_relation(&self.spec_first_col()),
    {
        FirstColumn::over(&self.cont)
    }

    /// The iterator that `second_col` returns.
    pub closed spec fn spec_second_col(&self) -> SecondColumn<'_, Kv1, Kv2> {
        SecondColumn::spec_over(&self.cont)
    }

    /// Returns an iterator over the second members of the pairs, in storage
    /// order.
    #[verifier::when_used_as_spec(spec_second_col)]
    pub fn second_col(&self) -> (it: SecondColumn<'_, Kv1, Kv2>)
        ensures
            it == self.spec_second_col(),
            it.rest() == self@,
            it.remaining() == second_column(self@),
            it.decrease() is Some,
            it.initial_value_relation(&self.spec_second_col()),
    {
        SecondColumn::over(&self.cont)
    }

    /// Returns the number of pairs in the map.
    #[verifier::when_used_as_spec(spec_len)]
    pub fn len(&self) -> (n: usize)
        ensures
            n == self@.len(),
            n == self.spec_len(),
    {
        self.cont.len()
    }

    /// Returns true if the map holds no pair.
    #[verifier::when_used_as_spec(spec_is_empty)]
    pub fn is_empty(&self) -> (empty: bool)
        ensures
            empty == (self@.len() == 0),
            empty == self.spec_is_empty(),
    {
        self.cont.is_empty()
    }

    /// The index of the first pair whose first member `key` equals.
    fn find_by_first<Q: ?Sized>(&self, key: &Q) -> (found: Option<usize>) where
        Kv1: Borrow<Q>,
        Q: PartialEq<Kv1>,

        ensures
            found matches Some(i) ==> i < self@.len(),
            Q::obeys_eq_spec() ==> position_by_first(self@, key) == match found {
                Some(i) => Some(i as int),
                None => None,
            },
    {
        let mut i: usize = 0;
        while i < self.cont.len()
            invariant
                i <= self.cont.len(),
                Q::obeys_eq_spec() ==> forall|j: int|
                    0 <= j < i ==> !first_is::<Kv1, Kv2, Q>(key)(#[trigger] self@[j]),
            decreases self.cont.len() - i,
        {
            if *key == self.cont[i].0 {
                proof {
                    if Q::obeys_eq_spec() {
                        lemma_first_where_is(self@, first_is::<Kv1, Kv2, Q>(key), i as int);
                    }
                }
                return Some(i);
            }
            i = i + 1;
        }
        proof {
            lemma_first_where_none(self@, first_is::<Kv1, Kv2, Q>(key));
        }
        None
    }

    /// The index of the first pair whose second member `key` equals.
    fn find_by_second<Q: ?Sized>(&self, key: &Q) -> (found: Option<usize>) where
        Kv2: Borrow<Q>,
        Q: PartialEq<Kv2>,

        ensures
            found matches Some(i) ==> i < self@.len(),
            Q::obeys_eq_spec() ==> position_by_second(self@, key) == match found {
                Some(i) => Some(i as int),
                None => None,
            },
    {
        let mut i: usize = 0;
        while i < self.cont.len()
            invariant
                i <= self.cont.len(),
                Q::obeys_eq_spec() ==> forall|j: int|
                    0 <= j < i ==> !second_is::<Kv1, Kv2, Q>(key)(#[trigger] self@[j]),
            decreases self.cont.len() - i,
        {
            if *key == self.cont[i].1 {
                proof {
                    if Q::obeys_eq_spec() {
                        lemma_first_where_is(self@, second_is::<Kv1, Kv2, Q>(key), i as int);
                    }
                }
                return Some(i);
            }
            i = i + 1;
        }
        proof {
            lemma_first_where_none(self@, second_is::<Kv1, Kv2, Q>(key));
        }
        None
    }

    /// Returns the second member of the first pair whose first member `key`
    /// equals.
    ///
    /// What is returned belongs to a pair of the map whatever `==` between `Q`
    /// and `Kv1` does; where `==` is what `eq_spec` says it is, the pair is
    /// the one at `position_by_first`.
    pub fn get_by_first<Q: ?Sized>(&self, key: &Q) -> (found: Option<&Kv2>) where
        Kv1: Borrow<Q>,
        Q: PartialEq<Kv1>,

        ensures
            found matches Some(v) ==> exists|i: int|
                0 <= i < self@.len() && *v == (#[trigger] self@[i]).1,
            Q::obeys_eq_spec() ==> found == lookup_by_first(self@, key),
    {
        match self.find_by_first(key) {
            Some(i) => Some(&self.cont[i].1),
            None => None,
        }
    }

    /// Returns the first member of the first pair whose second member `key`
    /// equals.
    ///
    /// What is returned belongs to a pair of the map whatever `==` between `Q`
    /// and `Kv2` does; where `==` is what `eq_spec` says it is, the pair is
    /// the one at `position_by_second`.
    pub fn get_by_second<Q: ?Sized>(&self, key: &Q) -> (found: Option<&Kv1>) where
        Kv2: Borrow<Q>,
        Q: PartialEq<Kv2>,

        ensures
            found matches Some(v) ==> exists|i: int|
                0 <= i < self@.len() && *v == (#[trigger] self@[i]).0,
            Q::obeys_eq_spec() ==> found == lookup_by_second(self@, key),
    {
        match self.find_by_second(key) {
            Some(i) => Some(&self.cont[i].0),
            None => None,
        }
    }

    /// Returns true if some pair has a first member that `key` equals.
    pub fn contains_first_key<Q: ?Sized>(&self, key: &Q) -> (found: bool) where
        Kv1: Borrow<Q>,
        Q: PartialEq<Kv1>,

        ensures
            found ==> self@.len() > 0,
            Q::obeys_eq_spec() ==> found == (position_by_first(self@, key) is Some),
    {
        self.find_by_first(key).is_some()
    }

    /// Returns true if some pair has a second member that `key` equals.
    pub fn contains_second_key<Q: ?Sized>(&self, key: &Q) -> (found: bool) where
        Kv2: Borrow<Q>,
        Q: PartialEq<Kv2>,

        ensures
            found ==> self@.len() > 0,
            Q::obeys_eq_spec() ==> found == (position_by_second(self@, key) is Some),
    {
        self.find_by_second(key).is_some()
    }

    /// Returns a mutable reference to the second member of the first pair
    /// whose first member `key` equals.
    ///
    /// Only the other side of the pair can be changed through the reference:
    /// the member that was looked up stays as it is. The map does not look at
    /// what is written: a value equal to the second member of another pair
    /// leaves two pairs with equal second members.
    pub fn get_mut_by_first<Q: ?Sized>(&mut self, key: &Q) -> (found: Option<&mut Kv2>) where
        Kv1: Borrow<Q>,
        Q: PartialEq<Kv1>,

        ensures
            match found {
                Some(v) => exists|i: int|
                    0 <= i < old(self)@.len() && *v == (#[trigger] old(self)@[i]).1 && final(self)@
                        == old(self)@.update(i, (old(self)@[i].0, *final(v))),
                None => final(self)@ == old(self)@,
            },
            Q::obeys_eq_spec() ==> match position_by_first(old(self)@, key) {
                Some(i) => found matches Some(v) && *v == old(self)@[i].1 && final(self)@
                    == old(self)@.update(i, (old(self)@[i].0, *final(v))),
                None => found is None,
            },
    {
        match self.find_by_first(key) {
            Some(i) => {
                let pair = &mut self.cont[i];
                Some(&mut pair.1)
            },
            None => None,
        }
    }

    /// Returns a mutable reference to the first member of the first pair
    /// whose second member `key` equals.
    ///
    /// Only the other side of the pair can be changed through the reference:
    /// the member that was looked up stays as it is. The map does not look at
    /// what is written: a value equal to the first member of another pair
    /// leaves two pairs with equal first members.
    pub fn get_mut_by_second<Q: ?Sized>(&mut self, key: &Q) -> (found: Option<&mut Kv1>) where
        Kv2: Borrow<Q>,
        Q: PartialEq<Kv2>,

        ensures
            match found {
                Some(v) => exists|i: int|
                    0 <= i < old(self)@.len() && *v == (#[trigger] old(self)@[i]).0 && final(self)@
                        == old(self)@.update(i, (*final(v), old(self)@[i].1)),
                None => final(self)@ == old(self)@,
            },
            Q::obeys_eq_spec() ==> match position_by_second(old(self)@, key) {
                Some(i) => found matches Some(v) && *v == old(self)@[i].0 && final(self)@
                    == old(self)@.update(i, (*final(v), old(self)@[i].1)),
                None => found is None,
            },
    {
        match self.find_by_second(key) {
            Some(i) => {
                let pair = &mut self.cont[i];
                Some(&mut pair.0)
            },
            None => None,
        }
    }

    /// Removes the first pair whose first member `key` equals, and returns it.
    ///
    /// The last pair takes the place of the removed one, so the order of the
    /// pairs is not kept.
    pub fn remove_by_first<Q: ?Sized>(&mut self, key: &Q) -> (removed: Option<(Kv1, Kv2)>) where
        Kv1: Borrow<Q>,
        Q: PartialEq<Kv1>,

        ensures
            match removed {
                Some(pair) => exists|i: int|
                    0 <= i < old(self)@.len() && old(self)@[i] == pair && final(self)@
                        == #[trigger] swap_remove(old(self)@, i),
                None => final(self)@ == old(self)@,
            },
            final(self)@.len() == old(self)@.len() - (if removed is Some {
                1int
            } else {
                0int
            }),
            Q::obeys_eq_spec() ==> {
                &&& removed == entry_by_first(old(self)@, key)
                &&& final(self)@ == removed_by_first(old(self)@, key)
            },
            old(self).well_formed() ==> final(self).well_formed(),
    {
        match self.find_by_first(key) {
            Some(i) => {
                let pair = self.cont.swap_remove(i);
                proof {
                    if old(self).well_formed() {
                        lemma_remove_keeps_one_to_one(old(self)@, i as int);
                    }
                }
                Some(pair)
            },
            None => None,
        }
    }

    /// Removes the first pair whose second member `key` equals, and returns
    /// it.
    ///
    /// The last pair takes the place of the removed one, so the order of the
    /// pairs is not kept.
    pub fn remove_by_second<Q: ?Sized>(&mut self, key: &Q) -> (removed: Option<(Kv1, Kv2)>) where
        Kv2: Borrow<Q>,
        Q: PartialEq<Kv2>,

        ensures
            match removed {
                Some(pair) => exists|i: int|
                    0 <= i < old(self)@.len() && old(self)@[i] == pair && final(self)@
                        == #[trigger] swap_remove(old(self)@, i),
                None => final(self)@ == old(self)@,
            },
            final(self)@.len() == old(self)@.len() - (if removed is Some {
                1int
            } else {
                0int
            }),
            Q::obeys_eq_spec() ==> {
                &&& removed == entry_by_second(old(self)@, key)
                &&& final(self)@ == removed_by_second(old(self)@, key)
            },
            old(self).well_formed() ==> final(self).well_formed(),
    {
        match self.find_by_second(key) {
            Some(i) => {
                let pair = self.cont.swap_remove(i);
                proof {
                    if old(self).well_formed() {
                        lemma_remove_keeps_one_to_one(old(self)@, i as int);
                    }
                }
                Some(pair)
            },
            None => None,
        }
    }

    /// Inserts the pair `(kv1, kv2)`.
    ///
    /// A pair of the map whose first member equals `kv1` gives way to the new
    /// pair and is returned; if there is none, a pair whose second member
    /// equals `kv2` does. One pair at most gives way: where `kv1` and `kv2`
    /// are found in two different pairs, the one found by `kv2` stays, and the
    /// map then holds two pairs with equal second members.
    pub fn insert(&mut self, kv1: Kv1, kv2: Kv2) -> (old_pair: Option<(Kv1, Kv2)>)
        ensures
            match old_pair {
                Some(pair) => exists|i: int|
                    0 <= i < old(self)@.len() && old(self)@[i] == pair && final(self)@
                        == (#[trigger] swap_remove(old(self)@, i)).push((kv1, kv2)),
                None => final(self)@ == old(self)@.push((kv1, kv2)),
            },
            final(self)@.len() == old(self)@.len() + 1 - (if old_pair is Some {
                1int
            } else {
                0int
            }),
            Kv1::obeys_eq_spec() && Kv2::obeys_eq_spec() ==> {
                &&& old_pair == displaced(old(self)@, kv1, kv2)
                &&& final(self)@ == inserted(old(self)@, kv1, kv2)
            },
            obeys_eq::<Kv1>() && obeys_eq::<Kv2>() && old(self).well_formed() && at_most_one_where(
                old(self)@,
                collides_with(kv1, kv2),
            ) ==> final(self).well_formed(),
    {
        let old_pair = if self.contains_first_key(&kv1) {
            self.remove_by_first(&kv1)
        } else if self.contains_second_key(&kv2) {
            self.remove_by_second(&kv2)
        } else {
            None
        };
        self.cont.push((kv1, kv2));
        proof {
            if obeys_eq::<Kv1>() && obeys_eq::<Kv2>() && old(self).well_formed()
                && at_most_one_where(old(self)@, collides_with(kv1, kv2)) {
                lemma_insert_keeps_one_to_one(old(self)@, kv1, kv2);
            }
        }
        old_pair
    }
}

impl<Kv1: PartialEq, Kv2: PartialEq> IntoIterator for BidirMap<Kv1, Kv2> {
    type Item = (Kv1, Kv2);

    type IntoIter = std::vec::IntoIter<(Kv1, Kv2)>;

    /// Turns the map into an iterator that hands out its pairs, in storage
    /// order.
    fn into_iter(self) -> (it: std::vec::IntoIter<(Kv1, Kv2)>)
        ensures
            it.remaining() == self@,
            it.decrease() is Some,
            it.initial_value_relation(&it),
    {
        self.cont.into_iter()
    }
}

impl<Kv1: PartialEq, Kv2: PartialEq> PartialEq
    for BidirMap<Kv1, Kv2> {
    /// Two maps are equal if they hold equal pairs in the same order.
    fn eq(&self, other: &Self) -> (equal: bool)
    {
        self.cont == other.cont
    }
}

impl<Kv1: PartialEq, Kv2: PartialEq> vstd::std_specs::cmp::PartialEqSpecImpl
    for BidirMap<Kv1, Kv2> {
    open spec fn obeys_eq_spec() -> bool {
        Kv1::obeys_eq_spec() && Kv2::obeys_eq_spec()
    }

    open spec fn eq_spec(&self, other: &Self) -> bool {
        pairs_eq(self@, other@)
    }
}

impl<Kv1: Eq, Kv2: Eq> Eq for BidirMap<Kv1, Kv2> {

}

impl<Kv1: PartialEq, Kv2: PartialEq> Default for BidirMap<Kv1, Kv2> {
    /// The empty map.
    fn default() -> (map: Self)
        ensures
            map@ == Seq::<(Kv1, Kv2)>::empty(),
            map.well_formed(),
    {
        BidirMap { cont: Vec::new() }
    }
}

impl<Kv1: PartialEq + Clone, Kv2: PartialEq + Clone> Clone for BidirMap<Kv1, Kv2> {
    /// A map of as many pairs, each made of the clones of the two members of
    /// the pair at its index.
    fn clone(&self) -> (map: Self)
        ensures
            map@.len() == self@.len(),
            forall|i: int|
                0 <= i < self@.len() ==> cloned((#[trigger] self@[i]).0, map@[i].0) && cloned(
                    self@[i].1,
                    map@[i].1,
                ),
    {
        let mut cont: Vec<(Kv1, Kv2)> = Vec::with_capacity(self.cont.len());
        let mut i: usize = 0;
        while i < self.cont.len()
            invariant
                i <= self.cont.len(),
                cont@.len() == i,
                forall|j: int|
                    0 <= j < i ==> cloned((#[trigger] self@[j]).0, cont@[j].0) && cloned(
                        self@[j].1,
                        cont@[j].1,
                    ),
            decreases self.cont.len() - i,
        {
            let pair = &self.cont[i];
            cont.push((pair.0.clone(), pair.1.clone()));
            i = i + 1;
        }
        BidirMap { cont }
    }
}

/// Creates a map by inserting `pairs` one after the other.
///
/// Unlike `BidirMap::from_iter`, each pair goes through `BidirMap::insert`: a
/// later pair displaces an earlier one with an equal member.
pub fn bidir_map<Kv1: PartialEq, Kv2: PartialEq>(pairs: Vec<(Kv1, Kv2)>) -> (map: BidirMap<
    Kv1,
    Kv2,
>)
    ensures
        map@.len() <= pairs@.len(),
        Kv1::obeys_eq_spec() && Kv2::obeys_eq_spec() ==> map@ == inserted_all(
            Seq::empty(),
            pairs@,
        ),
{
    let mut map = BidirMap::with_capacity(pairs.len());
    let ghost all = pairs@;
    for pair in it: pairs
        invariant
            it.seq() == all,
            map@.len() <= it.index(),
            Kv1::obeys_eq_spec() && Kv2::obeys_eq_spec() ==> map@ == inserted_all(
                Seq::empty(),
                all.take(it.index()),
            ),
    {
        proof {
            let n = it.index();
            assert(all.take(n + 1).drop_last() =~= all.take(n));
        }
        map.insert(pair.0, pair.1);
    }
    proof {
        assert(all.take(all.len() as int) =~= all);
    }
    map
}

} // verus!
