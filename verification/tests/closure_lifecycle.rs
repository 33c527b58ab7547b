use ffi_core::closure::ClosureFactory;
use ffi_core::descriptor::{primitive, PrimitiveKind};
use ffi_core::error::FfiError;
use ffi_core::interface::{default_abi, CallInterface};
use ffi_core::marshal::{decode_value, ArgumentHandle, CValue};

fn square_interface() -> CallInterface {
    CallInterface::compile(
        vec![primitive(PrimitiveKind::SInt32)],
        primitive(PrimitiveKind::SInt32),
        default_abi(),
    )
    .unwrap()
}

#[test]
fn closure_squares_its_argument() {
    // A closure over `(i32) -> i32` wrapping a callback that computes
    // x * x: an incoming native call delivering 7 gets 49 back.
    let mut factory = ClosureFactory::new(8);
    let closure = factory.create(square_interface(), 0).unwrap();
    let _entry = closure.code_pointer();

    // The native caller delivers one argument slot holding 7.
    let incoming = vec![ArgumentHandle::wrap(&CValue::SInt32(7)).into_bytes()];
    let decoded = closure.shim_decode_arguments(&incoming);
    assert_eq!(decoded.len(), 1);
    let x = match &decoded[0] {
        CValue::SInt32(v) => *v,
        other => panic!("argument decoded as {:?}", other),
    };
    assert_eq!(x, 7);

    // The managed callback runs, and the shim encodes its result.
    let result_bytes = closure.shim_encode_result(&CValue::SInt32(x * x));
    assert!(matches!(
        decode_value(closure.interface().return_type(), &result_bytes),
        CValue::SInt32(49)
    ));
}

#[test]
fn lifecycle_create_invoke_free() {
    let mut factory = ClosureFactory::new(2);
    let mut closure = factory.create(square_interface(), 5).unwrap();
    let entry = closure.code_pointer();

    // Invoke any number of times while alive.
    for v in [1i32, -4, 100] {
        let incoming = vec![ArgumentHandle::wrap(&CValue::SInt32(v)).into_bytes()];
        let decoded = closure.shim_decode_arguments(&incoming);
        assert!(matches!(decoded[0], CValue::SInt32(got) if got == v));
        assert_eq!(closure.code_pointer(), entry);
    }

    // Freeing is the terminal step; everything after this point is outside
    // the library's contracts, so the sequence ends here.
    closure.free();
}

#[test]
fn exhausted_memory_is_allocation_failed() {
    let mut factory = ClosureFactory::new(1);
    let first = factory.create(square_interface(), 0);
    assert!(first.is_ok());
    let second = factory.create(square_interface(), 0);
    assert_eq!(second.err(), Some(FfiError::AllocationFailed));
}

#[test]
fn zero_capacity_factory_grants_nothing() {
    let mut factory = ClosureFactory::new(0);
    let r = factory.create(square_interface(), 0);
    assert_eq!(r.err(), Some(FfiError::AllocationFailed));
}

#[test]
fn independent_closures_have_distinct_entry_points() {
    let mut factory = ClosureFactory::new(4);
    let a = factory.create(square_interface(), 1).unwrap();
    let b = factory.create(square_interface(), 2).unwrap();
    let c = factory.create(square_interface(), 3).unwrap();
    assert_ne!(a.code_pointer(), b.code_pointer());
    assert_ne!(b.code_pointer(), c.code_pointer());
    assert_ne!(a.code_pointer(), c.code_pointer());
}
