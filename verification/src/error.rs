//! The ways a register transaction can fail.

use vstd::prelude::*;

verus! {

/// The reason a transaction gave no result. Each is final for the call that
/// returned it: nothing is tried again on the caller's behalf.
#[derive(Clone, Copy, Debug, PartialEq, Eq, Structural)]
pub enum Error {
    /// The exchange over the bus failed.
    IOError,
    /// The exchange went through, and the device marked the header that it
    /// echoed as bad.
    HeaderBadError,
    /// Kept for conditions to come; no transaction returns it.
    OtherError,
}

} // verus!
