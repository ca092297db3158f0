//! The failures that array and tensor operations report.

use vstd::prelude::*;

verus! {

/// Why an operation was refused or did not complete.
#[derive(Clone, Copy, Debug, PartialEq, Eq, Structural)]
pub enum Error {
    /// A buffer length disagrees with a shape, a reshape would change the
    /// element count, or the operands of a kernel do not fit together.
    ShapeMismatch,
    /// Memory for the requested number of elements cannot be provided.
    Allocation,
    /// A copy between host and device failed, or the device buffer is no
    /// longer valid.
    Transfer,
    /// A kernel could not be submitted.
    Dispatch,
    /// A coordinate sequence does not name an element of the array.
    OutOfBounds,
}

} // verus!
