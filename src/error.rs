use vstd::prelude::*;

verus! {

/// Why a vector or matrix operation could not produce its result.
#[derive(Debug, Clone, Copy, PartialEq, Eq, Structural)]
pub enum MatrixError {
    /// Operand shapes do not fit: vector lengths differ, or the inner
    /// dimensions of a product do not agree.
    DimensionMismatch,
    /// An intermediate product or sum left the range of `i64`.
    Overflow,
    /// A cell's result never came back from the worker that owned it, or came
    /// back for another cell.
    WorkerCommunicationFailure,
}

} // verus!
