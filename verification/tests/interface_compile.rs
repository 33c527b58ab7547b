use ffi_core::descriptor::{pointer, primitive, structure, void, PrimitiveKind, TypeDescriptor};
use ffi_core::error::FfiError;
use ffi_core::interface::{default_abi, AbiTag, CallInterface};

#[test]
fn compile_resolves_whole_signature() {
    let cif = CallInterface::compile(
        vec![
            primitive(PrimitiveKind::SInt32),
            pointer(),
            structure(vec![primitive(PrimitiveKind::UInt16)]).unwrap(),
        ],
        primitive(PrimitiveKind::UInt64),
        default_abi(),
    )
    .unwrap();
    assert_eq!(cif.argument_count(), 3);
    assert_eq!(cif.argument_size(0), 4);
    assert_eq!(cif.argument_size(1), 8);
    assert_eq!(cif.argument_size(2), 2);
    assert_eq!(cif.return_size(), 8);
    assert_eq!(cif.return_align(), 8);
    assert_eq!(cif.abi(), AbiTag::Unix64);
}

#[test]
fn void_return_compiles() {
    let cif = CallInterface::compile(vec![primitive(PrimitiveKind::UInt8)], void(), default_abi())
        .unwrap();
    assert_eq!(cif.return_size(), 1);
}

#[test]
fn no_argument_signature_compiles() {
    let cif = CallInterface::compile(Vec::new(), primitive(PrimitiveKind::SInt32), default_abi())
        .unwrap();
    assert_eq!(cif.argument_count(), 0);
}

#[test]
fn void_argument_is_bad_typedef() {
    let r = CallInterface::compile(
        vec![void()],
        primitive(PrimitiveKind::SInt32),
        default_abi(),
    );
    assert_eq!(r.unwrap_err(), FfiError::BadTypedef);
}

#[test]
fn malformed_structure_argument_is_bad_typedef() {
    let r = CallInterface::compile(
        vec![TypeDescriptor::Structure(Vec::new())],
        primitive(PrimitiveKind::SInt32),
        default_abi(),
    );
    assert_eq!(r.unwrap_err(), FfiError::BadTypedef);
}

#[test]
fn unavailable_convention_is_unsupported_abi() {
    let r = CallInterface::compile(
        vec![primitive(PrimitiveKind::SInt32)],
        primitive(PrimitiveKind::SInt32),
        AbiTag::Win64,
    );
    assert_eq!(r.unwrap_err(), FfiError::UnsupportedAbi);
}

#[test]
fn convention_precedes_type_checking() {
    // An unavailable convention is reported even when the types are also
    // unusable: the convention is examined first.
    let r = CallInterface::compile(vec![void()], void(), AbiTag::Win64);
    assert_eq!(r.unwrap_err(), FfiError::UnsupportedAbi);
}
