//! Dispatching a function pointer through a compiled signature.
//!
//! A dispatch packages its arguments into a [`CallFrame`]: one byte slot
//! per declared argument, in declared order, plus the size of the buffer
//! the native call's result lands in. The platform ABI engine consumes the
//! frame and fills the return buffer; decoding that buffer back into a
//! typed value is [`crate::marshal::decode_value`]. The dispatcher itself
//! touches no shared state: a frame is a pure function of the interface and
//! the handles, so concurrent dispatches through one interface are
//! independent.

use crate::descriptor::{size_of, TypeDescriptor};
use crate::error::FfiError;
use crate::interface::{AbiTag, CallInterface};
use crate::marshal::{
    derived_type, derived_types, descriptor_of, lemma_value_bytes_len, value_bytes,
    ArgumentHandle, CValue,
};
use vstd::prelude::*;

verus! {

/// The transient, positional frame one dispatch hands the native engine.
pub struct CallFrame {
    slots: Vec<Vec<u8>>,
    ret_size: usize,
}

impl CallFrame {
    /// The byte slots of the call, in declared argument order.
    pub closed spec fn spec_slots(self) -> Seq<Seq<u8>> {
        Seq::new(self.slots@.len(), |i: int| self.slots@[i]@)
    }

    /// The size of the return buffer the native call must fill.
    pub closed spec fn spec_ret_size(self) -> nat {
        self.ret_size as nat
    }

    /// The number of argument slots.
    pub fn slot_count(&self) -> (r: usize)
        ensures
            r == self.spec_slots().len(),
    {
        self.slots.len()
    }

    /// The bytes of slot `i`.
    pub fn slot(&self, i: usize) -> (r: &Vec<u8>)
        requires
            i < self.spec_slots().len(),
        ensures
            r@ == self.spec_slots()[i as int],
    {
        &self.slots[i]
    }

    /// The size of the return buffer, in bytes.
    pub fn return_size(&self) -> (r: usize)
        ensures
            r == self.spec_ret_size(),
    {
        self.ret_size
    }

    /// A zero-filled buffer of the size the return value needs.
    pub fn new_return_buffer(&self) -> (r: Vec<u8>)
        ensures
            r@.len() == self.spec_ret_size(),
            forall|i: int| 0 <= i < r@.len() ==> r@[i] == 0u8,
    {
        let n: usize = self.ret_size;
        let mut out: Vec<u8> = Vec::new();
        let mut i: usize = 0;
        while i < n
            invariant
                i <= n,
                out@.len() == i,
                forall|j: int| 0 <= j < i ==> out@[j] == 0u8,
            decreases n - i,
        {
            out.push(0u8);
            i = i + 1;
        }
        out
    }
}

/// The first `k` bytes of a buffer.
fn take_bytes(src: &Vec<u8>, k: usize) -> (r: Vec<u8>)
    requires
        k <= src@.len(),
    ensures
        r@ == src@.take(k as int),
{
    let mut out: Vec<u8> = Vec::new();
    let mut i: usize = 0;
    while i < k
        invariant
            i <= k,
            k <= src@.len(),
            out@.len() == i,
            forall|j: int| 0 <= j < i ==> out@[j] == src@[j],
        decreases k - i,
    {
        out.push(src[i]);
        i = i + 1;
    }
    proof {
        assert(out@ =~= src@.take(k as int));
    }
    out
}

/// Builds the positional frame for one call through `cif`.
///
/// The caller's contract, which the native boundary cannot check and which
/// is therefore required here: one handle per declared argument, in
/// declared order, each handle at least as wide as its declared slot. Each
/// slot receives exactly the first `size` bytes of its handle — the native
/// truncation a narrower slot performs on a wider value.
#[verifier::loop_isolation(false)]
pub fn prepare_call(cif: &CallInterface, args: &Vec<ArgumentHandle>) -> (frame: CallFrame)
    requires
        cif.wf(),
        args@.len() == cif.spec_args().len(),
        forall|i: int|
            0 <= i < args@.len() ==> (#[trigger] args@[i])@.len() >= size_of(
                cif.spec_args()[i],
            ),
    ensures
        frame.spec_slots().len() == args@.len(),
        forall|i: int|
            0 <= i < args@.len() ==> #[trigger] frame.spec_slots()[i] == args@[i]@.take(
                size_of(cif.spec_args()[i]) as int,
            ),
        frame.spec_ret_size() == size_of(cif.spec_ret()),
{
    let n: usize = cif.argument_count();
    let mut slots: Vec<Vec<u8>> = Vec::new();
    let mut i: usize = 0;
    while i < n
        invariant
            i <= n,
            slots@.len() == i,
            forall|j: int|
                0 <= j < i ==> (#[trigger] slots@[j])@ == args@[j]@.take(
                    size_of(cif.spec_args()[j]) as int,
                ),
        decreases n - i,
    {
        let size = cif.argument_size(i);
        let slot = take_bytes(args[i].slot_bytes(), size);
        slots.push(slot);
        i = i + 1;
    }
    CallFrame { slots, ret_size: cif.return_size() }
}

/// Assembles a call the way the convenience layer does: derives each
/// argument's descriptor from its value, compiles an interface for the
/// platform's default convention, wraps the values positionally, and
/// builds the frame. The native invocation itself is the engine's; what it
/// receives is pinned down here.
///
/// Fails with [`FfiError::BadTypedef`] exactly when some argument is raw
/// bytes — which carry no derivable descriptor — or the signature does not
/// compile.
#[verifier::loop_isolation(false)]
pub fn plan_call(args: &Vec<CValue>, ret: TypeDescriptor) -> (r: Result<
    (CallInterface, CallFrame),
    FfiError,
>)
    ensures
        r is Ok <==> (forall|i: int| 0 <= i < args@.len() ==> !((#[trigger] args@[i]) is Raw))
            && crate::interface::valid_signature(
            derived_types(args@),
            ret,
            AbiTag::Unix64,
        ),
        r matches Ok(p) ==> p.0.wf() && p.0.spec_args() == derived_types(args@)
            && p.0.spec_ret() == ret && p.0.spec_abi() == AbiTag::Unix64,
        r matches Ok(p) ==> p.1.spec_slots().len() == args@.len() && (forall|i: int|
            0 <= i < args@.len() ==> #[trigger] p.1.spec_slots()[i] == value_bytes(args@[i]))
            && p.1.spec_ret_size() == size_of(ret),
        r matches Err(e) ==> e == FfiError::BadTypedef,
{
    let n: usize = args.len();
    let mut types: Vec<TypeDescriptor> = Vec::new();
    let mut i: usize = 0;
    while i < n
        invariant
            i <= n,
            types@.len() == i,
            forall|j: int| 0 <= j < i ==> !((#[trigger] args@[j]) is Raw),
            forall|j: int| 0 <= j < i ==> #[trigger] types@[j] == derived_type(args@[j]),
        decreases n - i,
    {
        match descriptor_of(&args[i]) {
            Some(t) => {
                types.push(t);
            },
            None => {
                return Err(FfiError::BadTypedef);
            },
        }
        i = i + 1;
    }
    proof {
        assert(types@ =~= derived_types(args@));
    }
    let cif = match CallInterface::compile(types, ret, AbiTag::Unix64) {
        Ok(c) => c,
        Err(_) => {
            return Err(FfiError::BadTypedef);
        },
    };
    let mut handles: Vec<ArgumentHandle> = Vec::new();
    let mut i: usize = 0;
    while i < n
        invariant
            i <= n,
            handles@.len() == i,
            forall|j: int| 0 <= j < i ==> (#[trigger] handles@[j])@ == value_bytes(args@[j]),
        decreases n - i,
    {
        handles.push(ArgumentHandle::wrap(&args[i]));
        i = i + 1;
    }
    proof {
        assert forall|j: int| 0 <= j < n implies (#[trigger] handles@[j])@.len() >= size_of(
            cif.spec_args()[j],
        ) by {
            lemma_value_bytes_len(args@[j], derived_type(args@[j]));
        }
    }
    let frame = prepare_call(&cif, &handles);
    proof {
        assert forall|j: int| 0 <= j < n implies #[trigger] frame.spec_slots()[j] == value_bytes(
            args@[j],
        ) by {
            lemma_value_bytes_len(args@[j], derived_type(args@[j]));
            assert(value_bytes(args@[j]).take(size_of(cif.spec_args()[j]) as int) =~= value_bytes(
                args@[j],
            ));
        }
    }
    Ok((cif, frame))
}

} // verus!
