use vstd::prelude::*;

verus! {

/// The fatal conditions that abort one run of a guest program.
#[derive(Debug, Clone, Copy, PartialEq, Eq, Structural)]
pub enum ContractViolation {
    /// The guest read past the last input segment.
    InputExhausted,
    /// A segment or journal slice does not have the shape of the type read.
    DecodeMismatch,
    /// A value handed to the channel cannot be encoded.
    NotEncodable,
    /// The accelerator returned a value not below the modulus.
    ResultOutOfRange,
}

} // verus!
