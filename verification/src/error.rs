//! The ways a benchmark run can come to nothing.

use vstd::prelude::*;

verus! {

/// Why a codec could not produce or read a byte form.
#[derive(Debug, Clone, Copy, PartialEq, Eq, Structural)]
pub enum CodecFailure {
    /// The codec itself reported an error.
    Rejected,
    /// A length field points past the end of the bytes.
    BadFrame,
    /// A field holds what no record can: a variant index that names no
    /// variant, or a record index beyond what the machine can count.
    BadField,
}

/// Why a benchmark run produced no statistics.
#[derive(Debug, Clone, Copy, PartialEq, Eq, Structural)]
pub enum BenchError {
    /// The run was asked for zero iterations, so no average exists.
    ZeroIterations,
    /// A serialize or deserialize call failed.
    Codec(CodecFailure),
    /// One call took longer than a `u64` of nanoseconds can hold.
    ElapsedOutOfRange,
    /// A phase was closed with another number of measurements than the run
    /// was configured for.
    Incomplete,
}

} // verus!
