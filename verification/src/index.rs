//! Indexing a map by either side: `map[ByFirst(&key)]` and
//! `map[BySecond(&key)]`.
//!
//! A map has two sides, and neither is the natural one to index by, so the
//! key is wrapped in the marker of the side it is looked up on. Indexing is
//! for keys that are known to be present: what it returns is what
//! `get_by_first` or `get_by_second` finds. A key that is absent is the
//! caller's error: verified code has to show that the key is found, and in
//! other code the call panics, with `no entry found for first key/value` or
//! `no entry found for second key/value`.
//!
//! The marker can be given by value or by reference.

use crate::map::BidirMap;
use crate::model::{lookup_by_first, lookup_by_second};
use std::borrow::Borrow;
use std::ops::Index;
use vstd::prelude::*;
use vstd::std_specs::cmp::PartialEqSpec;

verus! {

/// Marks a key as one to look up among the first members of the pairs.
pub struct ByFirst<'q, Q: ?Sized + 'q>(pub &'q Q);

/// Marks a key as one to look up among the second members of the pairs.
pub struct BySecond<'q, Q: ?Sized + 'q>(pub &'q Q);

impl<'q, Kv1: PartialEq, Kv2: PartialEq, Q: ?Sized + 'q>
    vstd::std_specs::core::IndexSpecImpl<ByFirst<'q, Q>>
    for BidirMap<Kv1, Kv2> where
    Kv1: Borrow<Q>,
    Q: PartialEq<Kv1>,
{
    /// The key is found among the first members.
    open spec fn index_req(&self, index: &ByFirst<'q, Q>) -> bool {
        Q::obeys_eq_spec() && lookup_by_first(self@, index.0) is Some
    }
}

impl<'q, Kv1: PartialEq, Kv2: PartialEq, Q: ?Sized + 'q>
    Index<ByFirst<'q, Q>>
    for BidirMap<Kv1, Kv2> where
    Kv1: Borrow<Q>,
    Q: PartialEq<Kv1>,
{
    type Output = Kv2;

    /// Returns what `get_by_first` finds for the key.
    fn index(&self, key: ByFirst<'q, Q>) -> (value: &Kv2)
        ensures
            Some(value) == lookup_by_first(self@, key.0),
    {
        self.get_by_first(key.0).expect("no entry found for first key/value")
    }
}

impl<'a, 'q, Kv1: PartialEq, Kv2: PartialEq, Q: ?Sized + 'q>
    vstd::std_specs::core::IndexSpecImpl<&'a ByFirst<'q, Q>>
    for BidirMap<Kv1, Kv2> where
    Kv1: Borrow<Q>,
    Q: PartialEq<Kv1>,
{
    /// The key is found among the first members.
    open spec fn index_req(&self, index: &&'a ByFirst<'q, Q>) -> bool {
        Q::obeys_eq_spec() && lookup_by_first(self@, index.0) is Some
    }
}

impl<'a, 'q, Kv1: PartialEq, Kv2: PartialEq, Q: ?Sized + 'q>
    Index<&'a ByFirst<'q, Q>>
    for BidirMap<Kv1, Kv2> where
    Kv1: Borrow<Q>,
    Q: PartialEq<Kv1>,
{
    type Output = Kv2;

    /// Returns what `get_by_first` finds for the key.
    fn index(&self, key: &'a ByFirst<'q, Q>) -> (value: &Kv2)
        ensures
            Some(value) == lookup_by_first(self@, key.0),
    {
        self.get_by_first(key.0).expect("no entry found for first key/value")
    }
}

impl<'q, Kv1: PartialEq, Kv2: PartialEq, Q: ?Sized + 'q>
    vstd::std_specs::core::IndexSpecImpl<BySecond<'q, Q>>
    for BidirMap<Kv1, Kv2> where
    Kv2: Borrow<Q>,
    Q: PartialEq<Kv2>,
{
    /// The key is found among the second members.
    open spec fn index_req(&self, index: &BySecond<'q, Q>) -> bool {
        Q::obeys_eq_spec() && lookup_by_second(self@, index.0) is Some
    }
}

impl<'q, Kv1: PartialEq, Kv2: PartialEq, Q: ?Sized + 'q>
    Index<BySecond<'q, Q>>
    for BidirMap<Kv1, Kv2> where
    Kv2: Borrow<Q>,
    Q: PartialEq<Kv2>,
{
    type Output = Kv1;

    /// Returns what `get_by_second` finds for the key.
    fn index(&self, key: BySecond<'q, Q>) -> (value: &Kv1)
        ensures
            Some(value) == lookup_by_second(self@, key.0),
    {
        self.get_by_second(key.0).expect("no entry found for second key/value")
    }
}

impl<'a, 'q, Kv1: PartialEq, Kv2: PartialEq, Q: ?Sized + 'q>
    vstd::std_specs::core::IndexSpecImpl<&'a BySecond<'q, Q>>
    for BidirMap<Kv1, Kv2> where
    Kv2: Borrow<Q>,
    Q: PartialEq<Kv2>,
{
    /// The key is found among the second members.
    open spec fn index_req(&self, index: &&'a BySecond<'q, Q>) -> bool {
        Q::obeys_eq_spec() && lookup_by_second(self@, index.0) is Some
    }
}

impl<'a, 'q, Kv1: PartialEq, Kv2: PartialEq, Q: ?Sized + 'q>
    Index<&'a BySecond<'q, Q>>
    for BidirMap<Kv1, Kv2> where
    Kv2: Borrow<Q>,
    Q: PartialEq<Kv2>,
{
    type Output = Kv1;

    /// Returns what `get_by_second` finds for the key.
    fn index(&self, key: &'a BySecond<'q, Q>) -> (value: &Kv1)
        ensures
            Some(value) == lookup_by_second(self@, key.0),
    {
        self.get_by_second(key.0).expect("no entry found for second key/value")
    }
}

} // verus!
