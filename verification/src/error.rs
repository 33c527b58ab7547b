//! The recoverable construction-time failures of the library.

use vstd::prelude::*;

verus! {

/// Why building a descriptor, compiling an interface, or creating a closure
/// was refused. Each operation's contract states exactly which variant it
/// returns and on which inputs; caller-contract violations at dispatch time
/// are not errors but preconditions.
#[derive(Clone, Copy, PartialEq, Eq, Structural, Debug)]
pub enum FfiError {
    /// A structure descriptor is malformed: an empty field list, or a field
    /// that is itself invalid.
    InvalidLayout,
    /// A type in a signature is structurally invalid for the target ABI, or
    /// its resolved layout exceeds what a compiled interface can carry.
    BadTypedef,
    /// The requested calling convention is not available on this platform.
    UnsupportedAbi,
    /// Executable and writable memory for a closure could not be obtained.
    AllocationFailed,
}

} // verus!
