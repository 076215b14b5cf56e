//! The views that walk a map: its pairs, shared or mutable, and each of its
//! two columns.

use vstd::prelude::*;
use vstd::std_specs::iter::IteratorSpec;

verus! {

/// The pairs of `s` as an iterator over shared references yields them: each
/// pair as a pair of references to its members.
pub open spec fn pair_refs<'a, A, B>(s: Seq<(A, B)>) -> Seq<(&'a A, &'a B)> {
    Seq::new(s.len(), |i: int| (&s[i].0, &s[i].1))
}

/// The first members of the pairs of `s`, in the order of `s`.
pub open spec fn first_column<'a, A, B>(s: Seq<(A, B)>) -> Seq<&'a A> {
    Seq::new(s.len(), |i: int| &s[i].0)
}

/// The second members of the pairs of `s`, in the order of `s`.
pub open spec fn second_column<'a, A, B>(s: Seq<(A, B)>) -> Seq<&'a B> {
    Seq::new(s.len(), |i: int| &s[i].1)
}

/// A place in the pairs of a map, from which they are read one by one.
struct Cursor<'a, Kv1: 'a, Kv2: 'a> {
    entries: &'a Vec<(Kv1, Kv2)>,
    pos: usize,
}

impl<'a, Kv1: 'a, Kv2: 'a> Cursor<'a, Kv1, Kv2> {
    #[verifier::type_invariant]
    spec fn in_bounds(self) -> bool {
        self.pos <= self.entries@.len()
    }

    /// The pairs from the cursor's place on.
    closed spec fn rest(&self) -> Seq<(Kv1, Kv2)> {
        self.entries@.skip(self.pos as int)
    }

    /// The cursor that stands before the first pair of `entries`.
    closed spec fn spec_at_start(entries: &'a Vec<(Kv1, Kv2)>) -> Self {
        Cursor { entries, pos: 0 }
    }

    /// Makes a cursor that stands before the first pair of `entries`.
    fn at_start(entries: &'a Vec<(Kv1, Kv2)>) -> (cursor: Self)
        ensures
            cursor == Self::spec_at_start(entries),
            cursor.rest() == entries@,
    {
        Cursor { entries, pos: 0 }
    }

    /// Reads the pair at the cursor's place and moves past it.
    fn advance(&mut self) -> (pair: Option<&'a (Kv1, Kv2)>)
        ensures
            match pair {
                Some(pair) => {
                    &&& old(self).rest().len() > 0
                    &&& *pair == old(self).rest()[0]
                    &&& final(self).rest() == old(self).rest().drop_first()
                },
                None => {
                    &&& old(self).rest().len() == 0
                    &&& final(self).rest() == old(self).rest()
                },
            },
    {
        proof {
            use_type_invariant(&*self);
        }
        if self.pos < self.entries.len() {
            let pair = &self.entries[self.pos];
            self.pos = self.pos + 1;
            assert(self.rest() =~= old(self).rest().drop_first());
            Some(pair)
        } else {
            None
        }
    }
}

/// An iterator over the pairs of a `BidirMap`, in storage order.
///
/// `BidirMap::iter` makes one.
pub struct Iter<'a, Kv1: 'a, Kv2: 'a> {
    cursor: Cursor<'a, Kv1, Kv2>,
}

impl<'a, Kv1: 'a, Kv2: 'a> Iter<'a, Kv1, Kv2> {
    /// The pairs that the iterator has yet to walk.
    pub closed spec fn rest(&self) -> Seq<(Kv1, Kv2)> {
        self.cursor.rest()
    }

    /// The iterator that stands before the first pair of `entries`.
    pub closed spec fn spec_over(entries: &'a Vec<(Kv1, Kv2)>) -> Self {
        Iter { cursor: Cursor::spec_at_start(entries) }
    }

    /// Makes an iterator that stands before the first pair of `entries`.
    pub(crate) fn over(entries: &'a Vec<(Kv1, Kv2)>) -> (it: Self)
        ensures
            it == Self::spec_over(entries),
            it.rest() == entries@,
            it.remaining() == pair_refs(entries@),
            it.decrease() is Some,
            it.initial_value_relation(&Self::spec_over(entries)),
    {
        Iter { cursor: Cursor::at_start(entries) }
    }
}

impl<'a, Kv1: 'a, Kv2: 'a> Iterator for Iter<'a, Kv1, Kv2> {
    type Item = (&'a Kv1, &'a Kv2);

    /// Yields the next pair, as references to its two members.
    fn next(&mut self) -> (item: Option<(&'a Kv1, &'a Kv2)>)
        ensures
            final(self).rest() == if old(self).rest().len() > 0 {
                old(self).rest().drop_first()
            } else {
                old(self).rest()
            },
    {
        match self.cursor.advance() {
            Some(pair) => {
                assert(pair_refs::<Kv1, Kv2>(self.rest()) =~= pair_refs::<Kv1, Kv2>(
                    old(self).rest(),
                ).drop_first());
                Some((&pair.0, &pair.1))
            },
            None => None,
        }
    }
}

impl<'a, Kv1: 'a, Kv2: 'a> vstd::std_specs::iter::IteratorSpecImpl for Iter<'a, Kv1, Kv2> {
    open spec fn obeys_prophetic_iter_laws(&self) -> bool {
        true
    }

    /// The pairs that the iterator has yet to yield, as it yields them.
    open spec fn remaining(&self) -> Seq<Self::Item> {
        pair_refs(self.rest())
    }

    open spec fn will_return_none(&self) -> bool {
        true
    }

    open spec fn decrease(&self) -> Option<nat> {
        Some(self.rest().len())
    }

    open spec fn initial_value_relation(&self, init: &Self) -> bool {
        self.rest() == init.rest()
    }

    open spec fn peek(&self, index: int) -> Option<Self::Item> {
        if 0 <= index < self.rest().len() {
            Some((&self.rest()[index].0, &self.rest()[index].1))
        } else {
            None
        }
    }
}

/// An iterator over the first members of the pairs of a `BidirMap`, in
/// storage order.
///
/// `BidirMap::first_col` makes one.
pub struct FirstColumn<'a, Kv1: 'a, Kv2: 'a> {
    cursor: Cursor<'a, Kv1, Kv2>,
}

impl<'a, Kv1: 'a, Kv2: 'a> FirstColumn<'a, Kv1, Kv2> {
    /// The pairs that the iterator has yet to walk.
    pub closed spec fn rest(&self) -> Seq<(Kv1, Kv2)> {
        self.cursor.rest()
    }

    /// The iterator that stands before the first pair of `entries`.
    pub closed spec fn spec_over(entries: &'a Vec<(Kv1, Kv2)>) -> Self {
        FirstColumn { cursor: Cursor::spec_at_start(entries) }
    }

    /// Makes an iterator that stands before the first pair of `entries`.
    pub(crate) fn over(entries: &'a Vec<(Kv1, Kv2)>) -> (it: Self)
        ensures
            it == Self::spec_over(entries),
            it.rest() == entries@,
            it.remaining() == first_column(entries@),
            it.decrease() is Some,
            it.initial_value_relation(&Self::spec_over(entries)),
    {
        FirstColumn { cursor: Cursor::at_start(entries) }
    }
}

impl<'a, Kv1: 'a, Kv2: 'a> Iterator for FirstColumn<'a, Kv1, Kv2> {
    type Item = &'a Kv1;

    /// Yields the first member of the next pair.
    fn next(&mut self) -> (item: Option<&'a Kv1>)
        ensures
            final(self).rest() == if old(self).rest().len() > 0 {
                old(self).rest().drop_first()
            } else {
                old(self).rest()
            },
    {
        match self.cursor.advance() {
            Some(pair) => {
                assert(first_column::<Kv1, Kv2>(self.rest()) =~= first_column::<Kv1, Kv2>(
                    old(self).rest(),
                ).drop_first());
                Some(&pair.0)
            },
            None => None,
        }
    }
}

impl<'a, Kv1: 'a, Kv2: 'a> vstd::std_specs::iter::IteratorSpecImpl for FirstColumn<'a, Kv1, Kv2> {
    open spec fn obeys_prophetic_iter_laws(&self) -> bool {
        true
    }

    /// The first members that the iterator has yet to yield.
    open spec fn remaining(&self) -> Seq<Self::Item> {
        first_column(self.rest())
    }

    open spec fn will_return_none(&self) -> bool {
        true
    }

    open spec fn decrease(&self) -> Option<nat> {
        Some(self.rest().len())
    }

    open spec fn initial_value_relation(&self, init: &Self) -> bool {
        self.rest() == init.rest()
    }

    open spec fn peek(&self, index: int) -> Option<Self::Item> {
        if 0 <= index < self.rest().len() {
            Some(&self.rest()[index].0)
        } else {
            None
        }
    }
}

/// An iterator over the second members of the pairs of a `BidirMap`, in
/// storage order.
///
/// `BidirMap::second_col` makes one.
pub struct SecondColumn<'a, Kv1: 'a, Kv2: 'a> {
    cursor: Cursor<'a, Kv1, Kv2>,
}

impl<'a, Kv1: 'a, Kv2: 'a> SecondColumn<'a, Kv1, Kv2> {
    /// The pairs that the iterator has yet to walk.
    pub closed spec fn rest(&self) -> Seq<(Kv1, Kv2)> {
        self.cursor.rest()
    }

    /// The iterator that stands before the first pair of `entries`.
    pub closed spec fn spec_over(entries: &'a Vec<(Kv1, Kv2)>) -> Self {
        SecondColumn { cursor: Cursor::spec_at_start(entries) }
    }

    /// Makes an iterator that stands before the first pair of `entries`.
    pub(crate) fn over(entries: &'a Vec<(Kv1, Kv2)>) -> (it: Self)
        ensures
            it == Self::spec_over(entries),
            it.rest() == entries@,
            it.remaining() == second_column(entries@),
            it.decrease() is Some,
            it.initial_value_relation(&Self::spec_over(entries)),
    {
        SecondColumn { cursor: Cursor::at_start(entries) }
    }
}

impl<'a, Kv1: 'a, Kv2: 'a> Iterator for SecondColumn<'a, Kv1, Kv2> {
    type Item = &'a Kv2;

    /// Yields the second member of the next pair.
    fn next(&mut self) -> (item: Option<&'a Kv2>)
        ensures
            final(self).rest() == if old(self).rest().len() > 0 {
                old(self).rest().drop_first()
            } else {
                old(self).rest()
            },
    {
        match self.cursor.advance() {
            Some(pair) => {
                assert(second_column::<Kv1, Kv2>(self.rest()) =~= second_column::<Kv1, Kv2>(
                    old(self).rest(),
                ).drop_first());
                Some(&pair.1)
            },
            None => None,
        }
    }
}

impl<'a, Kv1: 'a, Kv2: 'a> vstd::std_specs::iter::IteratorSpecImpl for SecondColumn<'a, Kv1, Kv2> {
    open spec fn obeys_prophetic_iter_laws(&self) -> bool {
        true
    }

    /// The second members that the iterator has yet to yield.
    open spec fn remaining(&self) -> Seq<Self::Item> {
        second_column(self.rest())
    }

    open spec fn will_return_none(&self) -> bool {
        true
    }

    open spec fn decrease(&self) -> Option<nat> {
        Some(self.rest().len())
    }

    open spec fn initial_value_relation(&self, init: &Self) -> bool {
        self.rest() == init.rest()
    }

    open spec fn peek(&self, index: int) -> Option<Self::Item> {
        if 0 <= index < self.rest().len() {
            Some(&self.rest()[index].1)
        } else {
            None
        }
    }
}

/// An iterator over the pairs of a `BidirMap` that lets both members of each
/// pair be changed.
///
/// `BidirMap::iter_mut` makes one. The map does not look at what is written
/// through it: writing a member equal to that of another pair leaves the map
/// with two pairs that one lookup finds.
pub struct IterMut<'a, Kv1: 'a, Kv2: 'a> {
    /// The pairs that the iterator has yet to yield.
    pub rest: &'a mut [(Kv1, Kv2)],
}

impl<'a, Kv1: 'a, Kv2: 'a> Iterator for IterMut<'a, Kv1, Kv2> {
    type Item = (&'a mut Kv1, &'a mut Kv2);

    /// Yields the next pair, as mutable references to its two members.
    ///
    /// What the borrowed pairs hold in the end is what is written through the
    /// two references, followed by what the pairs still to come hold in the
    /// end.
    fn next(&mut self) -> (item: Option<(&'a mut Kv1, &'a mut Kv2)>)
        ensures
            match item {
                Some((first, second)) => {
                    &&& old(self).rest@.len() > 0
                    &&& *first == old(self).rest@[0].0
                    &&& *second == old(self).rest@[0].1
                    &&& final(self).rest@ == old(self).rest@.drop_first()
                    &&& final(old(self).rest)@ == seq![(*final(first), *final(second))]
                        + final(final(self).rest)@
                },
                None => {
                    &&& old(self).rest@.len() == 0
                    &&& final(self).rest@.len() == 0
                    &&& final(old(self).rest)@.len() == 0
                },
            },
    {
        let mut rest: &'a mut [(Kv1, Kv2)] = &mut [];
        core::mem::swap(&mut rest, &mut self.rest);
        if rest.len() == 0 {
            return None;
        }
        let (head, tail) = rest.split_at_mut(1);
        self.rest = tail;
        let pair = &mut head[0];
        Some((&mut pair.0, &mut pair.1))
    }
}

impl<'a, Kv1: 'a, Kv2: 'a> vstd::std_specs::iter::IteratorSpecImpl for IterMut<'a, Kv1, Kv2> {
    /// The items are mutable references, which no sequence known in advance
    /// can hold: this iterator is described by the contract of `next` alone.
    open spec fn obeys_prophetic_iter_laws(&self) -> bool {
        false
    }

    open spec fn remaining(&self) -> Seq<Self::Item> {
        Seq::empty()
    }

    open spec fn will_return_none(&self) -> bool {
        false
    }

    open spec fn decrease(&self) -> Option<nat> {
        None
    }

    open spec fn initial_value_relation(&self, init: &Self) -> bool {
        true
    }

    open spec fn peek(&self, index: int) -> Option<Self::Item> {
        None
    }
}

} // verus!
