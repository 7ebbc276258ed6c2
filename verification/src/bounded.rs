//! Shared pieces of the bounded collections: the error value returned when a
//! collection's capacity is exhausted, and the result type of the fallible
//! update operations.

use vstd::prelude::*;

verus! {

/// The error value of every bounded-collection operation that would grow the
/// contents past their maximum length.
pub const CONTENTS_FULL: &'static str = "contents are full";

/// The result of a fallible bounded-collection update.
pub type MaxLenResult = Result<(), &'static str>;

} // verus!
