//! Cyclic navigation among the variants of an enumeration.
//!
//! Given an ordered description of an enumeration's variants, the library
//! plans a cycle over the variants that are not excluded from it and emits,
//! for each direction, a total transition table: every declared variant is
//! mapped either to its neighbour in the cycle (with placeholder data for
//! the target's fields) or to a rejection naming the direction attempted.

use vstd::prelude::*;

pub mod descriptor;
pub mod emitter;
pub mod laws;
pub mod planner;

verus! {

/// Moving to the next or previous variant of an enumeration, wrapping
/// around at either end of the cycle.
///
/// An implementation is normally generated from a description of the
/// enumeration: the transition tables produced by this library give, for
/// every variant, the body of each method.
pub trait EnumCycle: Sized {
    /// The cyclic successor of this value's variant.
    fn up(&self) -> Self;

    /// The cyclic predecessor of this value's variant.
    fn down(&self) -> Self;
}

} // verus!
