//! The ways in which a command can fail.

use vstd::prelude::*;

verus! {

/// Why a command did not complete. Every error ends the current invocation:
/// nothing is retried.
#[derive(Clone, Copy, Debug, PartialEq, Eq, Structural)]
pub enum InhibitError {
    /// The filter matched no device, and the command needs one.
    NoMatchingDevice,
    /// The filter matched more than one device, and the command acts on
    /// exactly one.
    AmbiguousMatch,
    /// The attribute file could not be opened, read or written.
    OperationFailed,
    /// The attribute held a byte that is neither `'0'` nor `'1'` when a toggle
    /// read it.
    InvalidState,
    /// A vendor or product ID was not a hexadecimal 16-bit number.
    InvalidCriteria,
}

} // verus!
