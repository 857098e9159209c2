//! The error type shared by every module of the library.

use vstd::prelude::*;

use crate::array::ArrayId;

verus! {

/// Why an operation was refused.
#[derive(Clone, Copy, Debug, PartialEq, Eq, Structural)]
pub enum VortexError {
    /// An index lies outside `start..stop`.
    OutOfBounds { index: usize, start: usize, stop: usize },
    /// Dictionary codes or take indices are not integers.
    InvalidIndicesDType,
    /// A value does not fit the type that it is cast to.
    CastOutOfRange,
    /// Two statements about the same bound contradict each other or cannot be compared.
    StatBoundsDisjoint,
    /// A rule replaced a parent by an array of another length.
    ReducedLengthMismatch { from: ArrayId, to: ArrayId },
    /// A rule replaced a parent by an array of another type.
    ReducedDTypeMismatch { from: ArrayId, to: ArrayId },
    /// Rewrites kept applying until they could no longer be counted in 64 bits.
    OptimizerDiverged,
    /// The types of a compressed array and of its codes do not fit each other.
    FsstDType,
    /// A symbol table has too many symbols, or not one length for each.
    FsstSymbolTable,
    /// A compressed array has not one uncompressed length for each row.
    FsstLengths,
    /// A stream returned more bytes than the range has.
    StreamTooLong { returned: usize, expected: usize },
    /// A stream ended before the range was complete.
    StreamLength { returned: usize, expected: usize },
}

/// The result of a fallible operation of the library.
pub type VortexResult<T> = Result<T, VortexError>;

} // verus!
