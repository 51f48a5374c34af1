use vstd::prelude::*;

verus! {

/// The ways in which an operation of this library can fail.
#[derive(Clone, Copy, Debug, PartialEq, Eq, Structural)]
pub enum Error {
    /// The sum of the operands does not fit in the integer width.
    Overflow,
    /// The random source could not supply any bits.
    EntropyUnavailable,
}

} // verus!
