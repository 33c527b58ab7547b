use ffi_core::descriptor::{primitive, PrimitiveKind};
use ffi_core::dispatch::{plan_call, prepare_call, CallFrame};
use ffi_core::error::FfiError;
use ffi_core::interface::{default_abi, CallInterface};
use ffi_core::marshal::{decode_value, ArgumentHandle, CValue};

/// Plays the native side of a two-argument `i32` call: decodes both slots
/// as the interface declares them, applies `op`, and hands back the bytes
/// the engine would leave in the return buffer.
fn run_binary_i32(cif: &CallInterface, frame: &CallFrame, op: fn(i32, i32) -> i32) -> Vec<u8> {
    let a = match decode_value(cif.argument_type(0), frame.slot(0)) {
        CValue::SInt32(x) => x,
        other => panic!("argument 0 decoded as {:?}", other),
    };
    let b = match decode_value(cif.argument_type(1), frame.slot(1)) {
        CValue::SInt32(x) => x,
        other => panic!("argument 1 decoded as {:?}", other),
    };
    let buffer = frame.new_return_buffer();
    assert_eq!(buffer.len(), 4);
    ArgumentHandle::wrap(&CValue::SInt32(op(a, b))).into_bytes()
}

fn multiply_i32(x: i32, y: i32) -> (i32, usize) {
    let args = vec![CValue::SInt32(x), CValue::SInt32(y)];
    let (cif, frame) = plan_call(&args, primitive(PrimitiveKind::SInt32)).unwrap();
    let ret = run_binary_i32(&cif, &frame, |a, b| a * b);
    match decode_value(cif.return_type(), &ret) {
        CValue::SInt32(r) => (r, cif.argument_count()),
        other => panic!("result decoded as {:?}", other),
    }
}

#[test]
fn test_call() {
    let (result, nargs) = multiply_i32(5, 6);
    assert_eq!(nargs, 2);
    assert_eq!(result, 30);
}

#[test]
fn multiply_by_zero_and_negative() {
    assert_eq!(multiply_i32(0, 6).0, 0);
    assert_eq!(multiply_i32(-3, 7).0, -21);
}

#[test]
fn test_function_with_two_arguments() {
    let args = vec![CValue::UInt64(4), CValue::UInt64(5)];
    let (cif, frame) = plan_call(&args, primitive(PrimitiveKind::UInt64)).unwrap();
    let a = match decode_value(cif.argument_type(0), frame.slot(0)) {
        CValue::UInt64(v) => v,
        other => panic!("argument 0 decoded as {:?}", other),
    };
    let b = match decode_value(cif.argument_type(1), frame.slot(1)) {
        CValue::UInt64(v) => v,
        other => panic!("argument 1 decoded as {:?}", other),
    };
    let ret = ArgumentHandle::wrap(&CValue::UInt64(a + b)).into_bytes();
    assert!(matches!(decode_value(cif.return_type(), &ret), CValue::UInt64(9)));
}

#[test]
fn test_function_sign_extension() {
    // An 8-bit unsigned slot declared in the signature receives a value of
    // 256 from a wider argument: the slot keeps only the low byte, so the
    // callee sees 0, as native truncation rules dictate.
    let cif = CallInterface::compile(
        vec![primitive(PrimitiveKind::UInt8)],
        primitive(PrimitiveKind::UInt8),
        default_abi(),
    )
    .unwrap();
    let handles = vec![ArgumentHandle::wrap(&CValue::UInt32(256))];
    let frame = prepare_call(&cif, &handles);
    assert_eq!(frame.slot(0).len(), 1);
    let seen = match decode_value(cif.argument_type(0), frame.slot(0)) {
        CValue::UInt8(v) => v,
        other => panic!("argument decoded as {:?}", other),
    };
    assert_eq!(seen, 0);
    let widened: u32 = seen as u32;
    let ret = ArgumentHandle::wrap(&CValue::UInt8(widened as u8)).into_bytes();
    assert!(matches!(decode_value(cif.return_type(), &ret), CValue::UInt8(0)));
}

#[test]
fn wider_value_wraps_modulo_slot_width() {
    let cif = CallInterface::compile(
        vec![primitive(PrimitiveKind::UInt8)],
        primitive(PrimitiveKind::UInt8),
        default_abi(),
    )
    .unwrap();
    let handles = vec![ArgumentHandle::wrap(&CValue::UInt32(0x0504_0301))];
    let frame = prepare_call(&cif, &handles);
    assert!(matches!(
        decode_value(cif.argument_type(0), frame.slot(0)),
        CValue::UInt8(0x01)
    ));
}

#[test]
fn signed_values_round_trip_through_slots() {
    let args = vec![
        CValue::SInt8(-1),
        CValue::SInt16(-32768),
        CValue::SInt64(-5_000_000_000),
        CValue::Pointer(0xdead_beef),
    ];
    let (cif, frame) = plan_call(&args, primitive(PrimitiveKind::SInt32)).unwrap();
    assert!(matches!(
        decode_value(cif.argument_type(0), frame.slot(0)),
        CValue::SInt8(-1)
    ));
    assert!(matches!(
        decode_value(cif.argument_type(1), frame.slot(1)),
        CValue::SInt16(-32768)
    ));
    assert!(matches!(
        decode_value(cif.argument_type(2), frame.slot(2)),
        CValue::SInt64(-5_000_000_000)
    ));
    assert!(matches!(
        decode_value(cif.argument_type(3), frame.slot(3)),
        CValue::Pointer(0xdead_beef)
    ));
}

#[test]
fn compiled_interface_is_reusable() {
    // One compiled interface backs any number of dispatches.
    let cif = CallInterface::compile(
        vec![
            primitive(PrimitiveKind::SInt32),
            primitive(PrimitiveKind::SInt32),
        ],
        primitive(PrimitiveKind::SInt32),
        default_abi(),
    )
    .unwrap();
    for (x, y, expect) in [(5i32, 6i32, 30i32), (0, 6, 0), (-3, 7, -21)] {
        let handles = vec![
            ArgumentHandle::wrap(&CValue::SInt32(x)),
            ArgumentHandle::wrap(&CValue::SInt32(y)),
        ];
        let frame = prepare_call(&cif, &handles);
        let ret = run_binary_i32(&cif, &frame, |a, b| a * b);
        match decode_value(cif.return_type(), &ret) {
            CValue::SInt32(r) => assert_eq!(r, expect),
            other => panic!("result decoded as {:?}", other),
        }
    }
}

#[test]
fn raw_argument_has_no_derivable_signature() {
    let args = vec![CValue::Raw(vec![1, 2, 3, 4])];
    let r = plan_call(&args, primitive(PrimitiveKind::SInt32));
    assert_eq!(r.err(), Some(FfiError::BadTypedef));
}

#[test]
fn independent_dispatches_do_not_interfere() {
    // Several interfaces prepared and consumed in interleaved order, each
    // with its own arithmetic: every frame keeps exactly its own slots.
    let cases: Vec<(i32, i32)> = vec![(2, 3), (10, -4), (0, 9), (-7, -6)];
    let mut planned = Vec::new();
    for (x, y) in &cases {
        let args = vec![CValue::SInt32(*x), CValue::SInt32(*y)];
        planned.push(plan_call(&args, primitive(PrimitiveKind::SInt32)).unwrap());
    }
    for (i, (cif, frame)) in planned.iter().enumerate() {
        let ret = run_binary_i32(cif, frame, |a, b| a * b);
        let expect = cases[i].0 * cases[i].1;
        match decode_value(cif.return_type(), &ret) {
            CValue::SInt32(r) => assert_eq!(r, expect),
            other => panic!("result decoded as {:?}", other),
        }
    }
}
