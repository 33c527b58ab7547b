//! Native closures: callable entry points bound to managed callback state.
//!
//! A [`Closure`] pairs a compiled [`CallInterface`] with a writable and an
//! executable memory address and an opaque token for the callback state the
//! trampoline carries. Its life runs `Allocated → Prepared → Freed`, and
//! `Freed` is terminal: the entry point a closure exposes is valid exactly
//! while the closure is alive, and no operation — invocation through the
//! shim, reading the pointer, or a second free — is available afterwards.
//!
//! The machine code of the trampoline is the platform engine's; what the
//! library pins down is the lifecycle of the memory pair and the shim's
//! contract: decode each incoming argument slot by the declared descriptor,
//! hand the values to the callback, and encode the callback's result into
//! the return buffer by the declared return descriptor.

use crate::descriptor::size_of;
use crate::error::FfiError;
use crate::interface::CallInterface;
use crate::marshal::{
    decode_value, matches_descriptor, value_bytes, well_decoded, ArgumentHandle, CValue,
};
use vstd::prelude::*;

verus! {

/// The lifecycle states of a closure's memory pair.
#[derive(Clone, Copy, PartialEq, Eq, Structural, Debug)]
pub enum ClosureState {
    Allocated,
    Prepared,
    Freed,
}

/// A native closure built over a compiled signature.
pub struct Closure {
    interface: CallInterface,
    user_data: usize,
    writable: usize,
    executable: usize,
    state: ClosureState,
}

/// Allocates the memory pairs closures live in: its capacity models how
/// many pairs of writable and executable memory the platform will grant.
pub struct ClosureFactory {
    capacity: usize,
    created: usize,
}

impl Closure {
    /// Where in its lifecycle the closure stands.
    pub closed spec fn spec_state(self) -> ClosureState {
        self.state
    }

    /// The compiled signature the closure was built from.
    pub closed spec fn spec_interface(self) -> CallInterface {
        self.interface
    }

    /// The opaque callback-state token the trampoline carries.
    pub closed spec fn spec_user_data(self) -> usize {
        self.user_data
    }

    /// The writable address of the memory pair.
    pub closed spec fn spec_writable(self) -> usize {
        self.writable
    }

    /// The executable address of the memory pair.
    pub closed spec fn spec_executable(self) -> usize {
        self.executable
    }

    /// Whether the closure may still be used: it is prepared and not freed,
    /// and carries a compiled interface.
    pub open spec fn usable(self) -> bool {
        self.spec_state() is Prepared && self.spec_interface().wf()
    }

    /// The callable native entry point. It stays valid only while the
    /// closure is alive, so a freed closure no longer exposes it.
    pub fn code_pointer(&self) -> (r: usize)
        requires
            self.usable(),
        ensures
            r == self.spec_executable(),
    {
        self.executable
    }

    /// The opaque callback-state token the trampoline hands the shim on
    /// every incoming call.
    pub fn user_data(&self) -> (r: usize)
        requires
            self.usable(),
        ensures
            r == self.spec_user_data(),
    {
        self.user_data
    }

    /// The compiled signature the closure dispatches through.
    pub fn interface(&self) -> (r: &CallInterface)
        ensures
            *r == self.spec_interface(),
    {
        &self.interface
    }

    /// Releases the memory pair. This is terminal: afterwards the closure
    /// satisfies no operation's precondition — the entry point must never
    /// be invoked again, and a second free is impossible through the
    /// library.
    pub fn free(&mut self)
        requires
            old(self).usable(),
        ensures
            final(self).spec_state() is Freed,
            final(self).spec_interface() == old(self).spec_interface(),
            final(self).spec_writable() == old(self).spec_writable(),
            final(self).spec_executable() == old(self).spec_executable(),
    {
        self.state = ClosureState::Freed;
    }

    /// Decodes the argument slots an incoming native call delivered, one
    /// per declared argument descriptor in declared order: the opening half
    /// of the dispatch shim's contract.
    #[verifier::loop_isolation(false)]
    pub fn shim_decode_arguments(&self, slots: &Vec<Vec<u8>>) -> (r: Vec<CValue>)
        requires
            self.usable(),
            slots@.len() == self.spec_interface().spec_args().len(),
            forall|i: int|
                0 <= i < slots@.len() ==> (#[trigger] slots@[i])@.len() == size_of(
                    self.spec_interface().spec_args()[i],
                ),
        ensures
            r@.len() == slots@.len(),
            forall|i: int|
                0 <= i < slots@.len() ==> well_decoded(
                    self.spec_interface().spec_args()[i],
                    slots@[i]@,
                    #[trigger] r@[i],
                ),
    {
        proof {
            self.spec_interface().lemma_wf_signature();
        }
        let n: usize = self.interface.argument_count();
        let mut out: Vec<CValue> = Vec::new();
        let mut i: usize = 0;
        while i < n
            invariant
                i <= n,
                out@.len() == i,
                forall|j: int|
                    0 <= j < i ==> well_decoded(
                        self.spec_interface().spec_args()[j],
                        slots@[j]@,
                        #[trigger] out@[j],
                    ),
            decreases n - i,
        {
            let t = self.interface.argument_type(i);
            out.push(decode_value(t, &slots[i]));
            i = i + 1;
        }
        out
    }

    /// Encodes the callback's result into the bytes the return buffer must
    /// receive, by the declared return descriptor: the closing half of the
    /// shim's contract.
    pub fn shim_encode_result(&self, v: &CValue) -> (r: Vec<u8>)
        requires
            self.usable(),
            matches_descriptor(*v, self.spec_interface().spec_ret()),
        ensures
            r@ == value_bytes(*v),
            r@.len() == size_of(self.spec_interface().spec_ret()),
    {
        proof {
            crate::marshal::lemma_value_bytes_len(*v, self.spec_interface().spec_ret());
        }
        ArgumentHandle::wrap(v).into_bytes()
    }
}

/// A freed closure is out of every operation's reach: freeing is terminal,
/// so neither a second free nor an invocation through the shim can follow.
pub proof fn lemma_freed_is_terminal(c: Closure)
    requires
        c.spec_state() is Freed,
    ensures
        !c.usable(),
{
}

impl ClosureFactory {
    /// How many memory pairs the factory may still or has already granted.
    pub closed spec fn spec_capacity(self) -> usize {
        self.capacity
    }

    /// How many memory pairs the factory has granted so far.
    pub closed spec fn spec_created(self) -> usize {
        self.created
    }

    /// A factory that can allocate `capacity` closure memory pairs.
    pub fn new(capacity: usize) -> (r: ClosureFactory)
        ensures
            r.spec_capacity() == capacity,
            r.spec_created() == 0,
    {
        ClosureFactory { capacity, created: 0 }
    }

    /// Allocates a memory pair, binds the trampoline to the interface and
    /// the callback token, and returns the closure already prepared: no
    /// path exposes an entry point before the trampoline is bound, and on
    /// failure no half-built closure is reachable.
    ///
    /// Fails with [`FfiError::AllocationFailed`] exactly when the factory's
    /// memory is exhausted.
    pub fn create(&mut self, interface: CallInterface, user_data: usize) -> (r: Result<
        Closure,
        FfiError,
    >)
        requires
            interface.wf(),
        ensures
            final(self).spec_capacity() == old(self).spec_capacity(),
            r is Ok <==> old(self).spec_created() < old(self).spec_capacity(),
            r matches Ok(c) ==> c.usable() && c.spec_interface() == interface
                && c.spec_user_data() == user_data
                && c.spec_writable() == old(self).spec_created()
                && c.spec_executable() == old(self).spec_created()
                && final(self).spec_created() == old(self).spec_created() + 1,
            r is Err ==> final(self).spec_created() == old(self).spec_created(),
            r matches Err(e) ==> e == FfiError::AllocationFailed,
    {
        if self.created >= self.capacity {
            return Err(FfiError::AllocationFailed);
        }
        let address: usize = self.created;
        self.created = self.created + 1;
        let mut closure = Closure {
            interface,
            user_data,
            writable: address,
            executable: address,
            state: ClosureState::Allocated,
        };
        closure.state = ClosureState::Prepared;
        Ok(closure)
    }
}

} // verus!
