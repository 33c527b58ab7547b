//! A verified core for assembling and dispatching foreign function calls
//! whose signatures are known only at run time.
//!
//! The library models C-ABI type layout with [`descriptor::TypeDescriptor`],
//! compiles ordered argument and return descriptors into a reusable
//! [`interface::CallInterface`], marshals heterogeneous values into the
//! positional, type-erased byte slots a compiled signature expects
//! ([`marshal`]), frames a dispatch through a compiled signature
//! ([`dispatch`]), and manages the lifecycle of native closures built over a
//! compiled signature ([`closure`]). The machine-level work of a call — the
//! register and stack marshaling a platform ABI engine performs — is outside
//! the library; everything up to and after that boundary is verified.

pub mod closure;
pub mod descriptor;
pub mod dispatch;
pub mod error;
pub mod interface;
pub mod marshal;
