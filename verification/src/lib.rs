//! An insertion-ordered associative container.
//!
//! [`StableHashMap`] keeps its keys in a dense sequence and its values in a
//! hash index keyed by slot number, so that entries are reached by position
//! in constant time and by key through a scan that returns the first match.
//! Every operation is specified over the container's view, the sequence of
//! its `(key, value)` entries in insertion order.

pub mod bulk;
pub mod index;
pub mod iter;
pub mod laws;
pub mod model;
pub mod stable_map;

pub use iter::StableHashMapIntoIterator;
pub use stable_map::StableHashMap;
