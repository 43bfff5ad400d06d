//! Simultaneous access to several elements, or several sub-slices, of one slice.
//!
//! An index set is checked against the slice by the rule of its policy (sorted, unsorted, or
//! ranges); a valid one is turned into references that are disjoint by construction, each split
//! off the slice in one front-to-back walk. Every entry point comes in a shared and a mutable
//! flavour, and in the shapes `get_many` (an `Option` or `Result`), `index_many` (valid indices
//! are demanded of the caller) and `*_unchecked` (the caller proves disjointness itself).
pub mod generic;
pub mod laws;
pub mod materialize;
pub mod materialize_ranges;
pub mod model;
pub mod simple;
pub mod simple_result;
pub mod slice_index;
pub mod std_proposal;
pub mod validate;
