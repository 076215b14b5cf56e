//! Bidirectional maps.
//!
//! A [`BidirMap`] holds pairs, and either member of a pair finds the other:
//!
//! ```text
//! let mut map = BidirMap::new();
//! map.insert(1, "a");
//!
//! assert_eq!(map.get_by_first(&1), Some(&"a"));
//! assert_eq!(map.get_by_second(&"a"), Some(&1));
//! assert_eq!(map[ByFirst(&1)], "a");
//! assert_eq!(map[BySecond(&"a")], 1);
//! ```
//!
//! The map keeps one vector of pairs and searches it from the front, so it
//! asks nothing of its two types but an equality, and there is no second
//! structure to keep in step with the first.
//!
//! Every operation is specified over the map's view, the sequence of its pairs
//! in storage order, by the functions of [`model`]; [`laws`] proves what
//! follows for the operations taken together.

pub mod index;
pub mod iter;
pub mod laws;
pub mod map;
pub mod model;

pub use index::{ByFirst, BySecond};
pub use iter::{FirstColumn, Iter, IterMut, SecondColumn};
pub use map::{bidir_map, BidirMap};
