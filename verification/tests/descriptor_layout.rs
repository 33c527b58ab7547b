use ffi_core::descriptor::{
    is_well_formed, layout, pointer, primitive, struct_offsets, structure, void, PrimitiveKind,
    TypeDescriptor,
};
use ffi_core::error::FfiError;
use ffi_core::interface::{AbiTag, CallInterface};

fn compiled_arg_layout(kind: PrimitiveKind) -> (usize, usize) {
    let cif = CallInterface::compile(
        vec![primitive(kind)],
        primitive(PrimitiveKind::SInt32),
        AbiTag::Unix64,
    )
    .unwrap();
    (cif.argument_size(0), cif.argument_align(0))
}

#[test]
fn primitive_kinds_resolve_to_platform_layout() {
    assert_eq!(compiled_arg_layout(PrimitiveKind::UInt8), (1, 1));
    assert_eq!(compiled_arg_layout(PrimitiveKind::SInt8), (1, 1));
    assert_eq!(compiled_arg_layout(PrimitiveKind::UInt16), (2, 2));
    assert_eq!(compiled_arg_layout(PrimitiveKind::SInt16), (2, 2));
    assert_eq!(compiled_arg_layout(PrimitiveKind::UInt32), (4, 4));
    assert_eq!(compiled_arg_layout(PrimitiveKind::SInt32), (4, 4));
    assert_eq!(compiled_arg_layout(PrimitiveKind::UInt64), (8, 8));
    assert_eq!(compiled_arg_layout(PrimitiveKind::SInt64), (8, 8));
    assert_eq!(compiled_arg_layout(PrimitiveKind::Float), (4, 4));
    assert_eq!(compiled_arg_layout(PrimitiveKind::Double), (8, 8));
}

#[test]
fn pointer_and_void_layout() {
    assert_eq!(layout(&pointer()), Some((8, 8)));
    assert_eq!(layout(&void()), Some((1, 1)));
}

#[test]
fn record_layout_matches_equivalent_c_structure() {
    // struct { uint32_t a; int64_t b; float c; } resolves as the native ABI
    // lays the record out: a at 0, b at 8 after padding, c at 16, rounded to
    // the 8-byte record alignment.
    let fields = vec![
        primitive(PrimitiveKind::UInt32),
        primitive(PrimitiveKind::SInt64),
        primitive(PrimitiveKind::Float),
    ];
    let record = structure(fields).unwrap();
    assert_eq!(struct_offsets(&record), Some(vec![0, 8, 16]));
    assert_eq!(layout(&record), Some((24, 8)));

    let cif = CallInterface::compile(
        vec![record],
        primitive(PrimitiveKind::SInt32),
        AbiTag::Unix64,
    )
    .unwrap();
    assert_eq!(cif.argument_size(0), 24);
    assert_eq!(cif.argument_align(0), 8);
}

#[test]
fn packed_tail_and_interior_padding() {
    // struct { uint8_t; uint16_t; uint8_t; }: offsets 0, 2, 4, size 6.
    let record = structure(vec![
        primitive(PrimitiveKind::UInt8),
        primitive(PrimitiveKind::UInt16),
        primitive(PrimitiveKind::UInt8),
    ])
    .unwrap();
    assert_eq!(struct_offsets(&record), Some(vec![0, 2, 4]));
    assert_eq!(layout(&record), Some((6, 2)));
}

#[test]
fn nested_record_layout() {
    // struct inner { uint32_t; uint8_t; } has size 8, alignment 4;
    // struct outer { inner; uint8_t; } places the byte at 8 and pads to 12.
    let inner = structure(vec![
        primitive(PrimitiveKind::UInt32),
        primitive(PrimitiveKind::UInt8),
    ])
    .unwrap();
    assert_eq!(layout(&inner), Some((8, 4)));
    let outer = structure(vec![inner, primitive(PrimitiveKind::UInt8)]).unwrap();
    assert_eq!(struct_offsets(&outer), Some(vec![0, 8]));
    assert_eq!(layout(&outer), Some((12, 4)));
}

#[test]
fn empty_structure_is_invalid_layout() {
    let r = structure(Vec::new());
    assert_eq!(r.unwrap_err(), FfiError::InvalidLayout);
}

#[test]
fn void_field_is_invalid_layout() {
    let r = structure(vec![void(), primitive(PrimitiveKind::UInt8)]);
    assert_eq!(r.unwrap_err(), FfiError::InvalidLayout);
}

#[test]
fn malformed_descriptor_detected() {
    // A hand-built structure with no fields is rejected wherever it is
    // offered, even though the enum itself can represent it.
    let bad = TypeDescriptor::Structure(Vec::new());
    assert!(!is_well_formed(&bad));
    let nested_bad = TypeDescriptor::Structure(vec![
        TypeDescriptor::Primitive(PrimitiveKind::UInt8),
        TypeDescriptor::Structure(Vec::new()),
    ]);
    assert!(!is_well_formed(&nested_bad));
}
