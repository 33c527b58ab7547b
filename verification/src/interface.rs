//! Compiled call signatures.
//!
//! A [`CallInterface`] is the validated, reusable product of compiling an
//! ordered list of argument descriptors, a return descriptor, and a calling
//! convention. Compilation either fully succeeds — yielding an immutable
//! interface with every size and alignment resolved — or fully fails; no
//! partial interface is ever returned. The interface owns the descriptors it
//! was compiled from, so the layout a dispatch reads can never dangle.

use crate::descriptor::{
    align_of, is_sized_type, is_well_formed, layout, size_of, sized_type, well_formed,
    TypeDescriptor, MAX_TYPE_SIZE,
};
use crate::error::FfiError;
use vstd::prelude::*;

verus! {

/// A calling-convention selector. The modeled platform follows the System V
/// conventions for 64-bit code; the Windows 64-bit convention is known but
/// not available on it.
#[derive(Clone, Copy, PartialEq, Eq, Structural, Debug)]
pub enum AbiTag {
    Unix64,
    Win64,
}

/// Whether a calling convention is available on the modeled platform.
pub open spec fn abi_supported(abi: AbiTag) -> bool {
    abi is Unix64
}

/// The platform's default calling convention.
pub fn default_abi() -> (r: AbiTag)
    ensures
        r == AbiTag::Unix64,
{
    AbiTag::Unix64
}

/// Whether a signature may be compiled: the convention is available, the
/// return type is well-formed, and every argument type is well-formed,
/// sized, and small enough for a compiled interface to carry.
pub open spec fn valid_signature(args: Seq<TypeDescriptor>, ret: TypeDescriptor, abi: AbiTag) -> bool {
    &&& abi_supported(abi)
    &&& well_formed(ret)
    &&& size_of(ret) <= MAX_TYPE_SIZE as nat
    &&& forall|i: int|
        0 <= i < args.len() ==> sized_type(#[trigger] args[i]) && size_of(args[i])
            <= MAX_TYPE_SIZE as nat
}

/// A compiled, reusable call signature: the ordered argument descriptors,
/// the return descriptor, the calling convention, and the layout resolved
/// for each of them. Immutable once compiled; it may back any number of
/// dispatches.
#[derive(Debug)]
pub struct CallInterface {
    args: Vec<TypeDescriptor>,
    ret: TypeDescriptor,
    abi: AbiTag,
    arg_sizes: Vec<usize>,
    arg_aligns: Vec<usize>,
    ret_size: usize,
    ret_align: usize,
}

impl CallInterface {
    /// The declared argument descriptors, in call order.
    pub closed spec fn spec_args(self) -> Seq<TypeDescriptor> {
        self.args@
    }

    /// The declared return descriptor.
    pub closed spec fn spec_ret(self) -> TypeDescriptor {
        self.ret
    }

    /// The calling convention the interface was compiled for.
    pub closed spec fn spec_abi(self) -> AbiTag {
        self.abi
    }

    /// The invariant of a compiled interface: its signature is valid and the
    /// cached layout matches what the descriptors resolve to.
    pub closed spec fn wf(self) -> bool {
        &&& valid_signature(self.args@, self.ret, self.abi)
        &&& self.arg_sizes@.len() == self.args@.len()
        &&& self.arg_aligns@.len() == self.args@.len()
        &&& forall|i: int|
            0 <= i < self.args@.len() ==> #[trigger] self.arg_sizes@[i] == size_of(self.args@[i])
        &&& forall|i: int|
            0 <= i < self.args@.len() ==> #[trigger] self.arg_aligns@[i] == align_of(self.args@[i])
        &&& self.ret_size == size_of(self.ret)
        &&& self.ret_align == align_of(self.ret)
    }

    /// A compiled interface always carries a valid signature.
    pub proof fn lemma_wf_signature(self)
        requires
            self.wf(),
        ensures
            valid_signature(self.spec_args(), self.spec_ret(), self.spec_abi()),
    {
    }

    /// Compiles a signature into a reusable interface.
    ///
    /// Succeeds exactly when the signature is valid. Fails with
    /// [`FfiError::UnsupportedAbi`] when the convention is not available on
    /// this platform, and otherwise with [`FfiError::BadTypedef`] when a
    /// type in the signature is structurally invalid or resolves to a
    /// layout too large for a compiled interface.
    #[verifier::loop_isolation(false)]
    pub fn compile(args: Vec<TypeDescriptor>, ret: TypeDescriptor, abi: AbiTag) -> (r: Result<
        CallInterface,
        FfiError,
    >)
        ensures
            r is Ok <==> valid_signature(args@, ret, abi),
            r matches Ok(c) ==> c.wf() && c.spec_args() == args@ && c.spec_ret() == ret
                && c.spec_abi() == abi,
            r matches Err(e) ==> e == (if abi_supported(abi) {
                FfiError::BadTypedef
            } else {
                FfiError::UnsupportedAbi
            }),
    {
        let supported: bool = match abi {
            AbiTag::Unix64 => true,
            AbiTag::Win64 => false,
        };
        if !supported {
            return Err(FfiError::UnsupportedAbi);
        }
        if !is_well_formed(&ret) {
            return Err(FfiError::BadTypedef);
        }
        let (ret_size, ret_align) = match layout(&ret) {
            Some(sa) => sa,
            None => {
                return Err(FfiError::BadTypedef);
            },
        };
        let n: usize = args.len();
        let mut arg_sizes: Vec<usize> = Vec::new();
        let mut arg_aligns: Vec<usize> = Vec::new();
        let mut i: usize = 0;
        while i < n
            invariant
                0 <= i <= n,
                arg_sizes@.len() == i,
                arg_aligns@.len() == i,
                forall|j: int|
                    0 <= j < i ==> sized_type(#[trigger] args@[j]) && size_of(args@[j])
                        <= MAX_TYPE_SIZE as nat,
                forall|j: int| 0 <= j < i ==> #[trigger] arg_sizes@[j] == size_of(args@[j]),
                forall|j: int| 0 <= j < i ==> #[trigger] arg_aligns@[j] == align_of(args@[j]),
            decreases n - i,
        {
            if !is_sized_type(&args[i]) {
                return Err(FfiError::BadTypedef);
            }
            match layout(&args[i]) {
                Some((s, a)) => {
                    arg_sizes.push(s);
                    arg_aligns.push(a);
                },
                None => {
                    return Err(FfiError::BadTypedef);
                },
            }
            i = i + 1;
        }
        Ok(CallInterface { args, ret, abi, arg_sizes, arg_aligns, ret_size, ret_align })
    }

    /// The number of declared arguments.
    pub fn argument_count(&self) -> (r: usize)
        ensures
            r == self.spec_args().len(),
    {
        self.args.len()
    }

    /// The declared descriptor of argument `i`.
    pub fn argument_type(&self, i: usize) -> (r: &TypeDescriptor)
        requires
            i < self.spec_args().len(),
        ensures
            *r == self.spec_args()[i as int],
    {
        &self.args[i]
    }

    /// The declared return descriptor.
    pub fn return_type(&self) -> (r: &TypeDescriptor)
        ensures
            *r == self.spec_ret(),
    {
        &self.ret
    }

    /// The calling convention the interface was compiled for.
    pub fn abi(&self) -> (r: AbiTag)
        ensures
            r == self.spec_abi(),
    {
        self.abi
    }

    /// The resolved native size of argument `i`.
    pub fn argument_size(&self, i: usize) -> (r: usize)
        requires
            self.wf(),
            i < self.spec_args().len(),
        ensures
            r == size_of(self.spec_args()[i as int]),
    {
        self.arg_sizes[i]
    }

    /// The resolved native alignment of argument `i`.
    pub fn argument_align(&self, i: usize) -> (r: usize)
        requires
            self.wf(),
            i < self.spec_args().len(),
        ensures
            r == align_of(self.spec_args()[i as int]),
    {
        self.arg_aligns[i]
    }

    /// The resolved native size of the return type.
    pub fn return_size(&self) -> (r: usize)
        requires
            self.wf(),
        ensures
            r == size_of(self.spec_ret()),
    {
        self.ret_size
    }

    /// The resolved native alignment of the return type.
    pub fn return_align(&self) -> (r: usize)
        requires
            self.wf(),
        ensures
            r == align_of(self.spec_ret()),
    {
        self.ret_align
    }
}

} // verus!
