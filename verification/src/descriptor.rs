//! Descriptions of the memory layout of C-ABI types.
//!
//! A [`TypeDescriptor`] records how one C-compatible type is laid out in
//! memory: the scalar kinds with fixed size and alignment, the untyped
//! pointer, `void`, and ordered structures of nested descriptors. The layout
//! rules modeled here are those of a 64-bit platform that lays structures out
//! by the usual C rules: each field sits at the next offset aligned for it,
//! the structure's alignment is the largest field alignment, and its size is
//! the padded span of its fields rounded up to that alignment.

use crate::error::FfiError;
use vstd::arithmetic::div_mod::{lemma_fundamental_div_mod, lemma_mod_multiples_basic};
use vstd::pervasive::unreached;
use vstd::prelude::*;

verus! {

/// The largest resolved size a type may have to participate in a compiled
/// interface; a compiled signature carries its byte counts in 32 bits.
pub const MAX_TYPE_SIZE: usize = 0xFFFF_FFFF;

/// The scalar kinds with a fixed, statically known layout.
#[derive(Clone, Copy, PartialEq, Eq, Structural, Debug)]
pub enum PrimitiveKind {
    UInt8,
    SInt8,
    UInt16,
    SInt16,
    UInt32,
    SInt32,
    UInt64,
    SInt64,
    Float,
    Double,
}

/// Describes the memory layout of one C-ABI type.
///
/// `Void` is only meaningful as a return type; `Structure` holds the ordered
/// field descriptors of a C structure. A descriptor owns its field sequence,
/// so a compiled interface built from it can never outlive the layout it
/// references.
#[derive(Debug)]
pub enum TypeDescriptor {
    Void,
    Primitive(PrimitiveKind),
    Pointer,
    Structure(Vec<TypeDescriptor>),
}

/// The native size, in bytes, of a scalar kind on the modeled platform.
pub open spec fn kind_size(k: PrimitiveKind) -> nat {
    match k {
        PrimitiveKind::UInt8 => 1,
        PrimitiveKind::SInt8 => 1,
        PrimitiveKind::UInt16 => 2,
        PrimitiveKind::SInt16 => 2,
        PrimitiveKind::UInt32 => 4,
        PrimitiveKind::SInt32 => 4,
        PrimitiveKind::UInt64 => 8,
        PrimitiveKind::SInt64 => 8,
        PrimitiveKind::Float => 4,
        PrimitiveKind::Double => 8,
    }
}

/// On the modeled platform every scalar is aligned to its own size.
pub open spec fn kind_align(k: PrimitiveKind) -> nat {
    kind_size(k)
}

/// `off` rounded up to the next multiple of `a`.
pub open spec fn align_up(off: nat, a: nat) -> nat
    recommends
        a > 0,
{
    (((off + a - 1) / (a as int)) * (a as int)) as nat
}

/// The native size of a type, in bytes.
pub open spec fn size_of(t: TypeDescriptor) -> nat
    decreases t,
{
    match t {
        TypeDescriptor::Void => 1,
        TypeDescriptor::Primitive(k) => kind_size(k),
        TypeDescriptor::Pointer => 8,
        TypeDescriptor::Structure(fields) => align_up(
            fields_end(fields@),
            struct_align(fields@),
        ),
    }
}

/// The native alignment of a type, in bytes.
pub open spec fn align_of(t: TypeDescriptor) -> nat
    decreases t,
{
    match t {
        TypeDescriptor::Void => 1,
        TypeDescriptor::Primitive(k) => kind_align(k),
        TypeDescriptor::Pointer => 8,
        TypeDescriptor::Structure(fields) => struct_align(fields@),
    }
}

/// The alignment of a structure: the largest alignment among its fields,
/// and 1 for an empty field list.
pub open spec fn struct_align(fields: Seq<TypeDescriptor>) -> nat
    decreases fields,
{
    if fields.len() == 0 {
        1
    } else {
        let head = align_of(fields[0]);
        let rest = struct_align(fields.drop_first());
        if head >= rest {
            head
        } else {
            rest
        }
    }
}

/// The offset one past the last field of a structure, before the final
/// rounding to the structure's alignment: each field is placed at the next
/// offset aligned for it.
pub open spec fn fields_end(fields: Seq<TypeDescriptor>) -> nat
    decreases fields,
{
    if fields.len() == 0 {
        0
    } else {
        let prefix = fields.drop_last();
        let last = fields.last();
        align_up(fields_end(prefix), align_of(last)) + size_of(last)
    }
}

/// The byte offset of field `i` within a structure with the given fields.
pub open spec fn field_offset(fields: Seq<TypeDescriptor>, i: int) -> nat
    recommends
        0 <= i < fields.len(),
{
    align_up(fields_end(fields.take(i)), align_of(fields[i]))
}

/// Whether a descriptor is structurally valid: every structure it contains
/// has at least one field, and no structure has a `void` field.
pub open spec fn well_formed(t: TypeDescriptor) -> bool
    decreases t,
{
    match t {
        TypeDescriptor::Void => true,
        TypeDescriptor::Primitive(_) => true,
        TypeDescriptor::Pointer => true,
        TypeDescriptor::Structure(fields) => fields@.len() > 0 && fields_well_formed(fields@),
    }
}

/// Whether every descriptor in a field sequence may stand as a structure
/// field: not `void`, and itself well-formed.
pub open spec fn fields_well_formed(fields: Seq<TypeDescriptor>) -> bool
    decreases fields,
{
    if fields.len() == 0 {
        true
    } else {
        &&& !(fields[0] is Void)
        &&& well_formed(fields[0])
        &&& fields_well_formed(fields.drop_first())
    }
}

/// Whether a type may stand as an argument or a structure field: well-formed
/// and with a size, which excludes `void`.
pub open spec fn sized_type(t: TypeDescriptor) -> bool {
    well_formed(t) && !(t is Void)
}

/// Rounding up to an alignment never moves an offset backwards, moves it
/// less than one alignment unit forward, and lands on a multiple of the
/// alignment.
pub proof fn lemma_align_up(off: nat, a: nat)
    requires
        a > 0,
    ensures
        off <= align_up(off, a),
        align_up(off, a) < off + a,
        align_up(off, a) % a == 0,
{
    let x = (off + a - 1) as int;
    let d = a as int;
    lemma_fundamental_div_mod(x, d);
    lemma_mod_multiples_basic(x / d, d);
}

/// Every type's alignment lies between 1 and 8 bytes on the modeled
/// platform.
pub proof fn lemma_align_of_bounds(t: TypeDescriptor)
    ensures
        1 <= align_of(t) <= 8,
    decreases t,
{
    match t {
        TypeDescriptor::Structure(fields) => lemma_struct_align_bounds(fields@),
        _ => {},
    }
}

/// The alignment of any field sequence lies between 1 and 8 bytes.
pub proof fn lemma_struct_align_bounds(fields: Seq<TypeDescriptor>)
    ensures
        1 <= struct_align(fields) <= 8,
    decreases fields,
{
    if fields.len() > 0 {
        lemma_align_of_bounds(fields[0]);
        lemma_struct_align_bounds(fields.drop_first());
    }
}

/// A field sequence is well-formed exactly when each of its members may
/// stand as a structure field.
pub proof fn lemma_fields_well_formed_iff(fields: Seq<TypeDescriptor>)
    ensures
        fields_well_formed(fields) <==> (forall|j: int|
            0 <= j < fields.len() ==> sized_type(#[trigger] fields[j])),
    decreases fields,
{
    if fields.len() > 0 {
        lemma_fields_well_formed_iff(fields.drop_first());
        assert forall|j: int| 0 <= j < fields.drop_first().len() implies #[trigger] fields.drop_first()[j]
            == fields[j + 1] by {}
        if fields_well_formed(fields) {
            assert forall|j: int| 0 <= j < fields.len() implies sized_type(
                #[trigger] fields[j],
            ) by {
                if j >= 1 {
                    assert(sized_type(fields.drop_first()[j - 1]));
                }
            }
        }
        if forall|j: int| 0 <= j < fields.len() ==> sized_type(#[trigger] fields[j]) {
            assert forall|j: int| 0 <= j < fields.drop_first().len() implies sized_type(
                #[trigger] fields.drop_first()[j],
            ) by {
                assert(sized_type(fields[j + 1]));
            }
        }
    }
}

/// Extending a field sequence by one member places that member at the next
/// offset aligned for it.
pub proof fn lemma_fields_end_step(fields: Seq<TypeDescriptor>, i: int)
    requires
        0 <= i < fields.len(),
    ensures
        fields_end(fields.take(i + 1)) == align_up(
            fields_end(fields.take(i)),
            align_of(fields[i]),
        ) + size_of(fields[i]),
{
    assert(fields.take(i + 1).drop_last() =~= fields.take(i));
    assert(fields.take(i + 1).last() == fields[i]);
}

/// Extending a field sequence by one member raises the alignment to that
/// member's alignment when it is the largest seen.
pub proof fn lemma_struct_align_push(fields: Seq<TypeDescriptor>, t: TypeDescriptor)
    ensures
        struct_align(fields.push(t)) == (if align_of(t) >= struct_align(fields) {
            align_of(t)
        } else {
            struct_align(fields)
        }),
    decreases fields,
{
    lemma_align_of_bounds(t);
    if fields.len() == 0 {
        assert(fields.push(t).drop_first() =~= fields);
    } else {
        assert(fields.push(t).drop_first() =~= fields.drop_first().push(t));
        lemma_struct_align_push(fields.drop_first(), t);
    }
}

/// The span of a prefix of a field sequence never exceeds the span of the
/// whole sequence.
pub proof fn lemma_fields_end_prefix(fields: Seq<TypeDescriptor>, i: int)
    requires
        0 <= i <= fields.len(),
    ensures
        fields_end(fields.take(i)) <= fields_end(fields),
    decreases fields.len() - i,
{
    if i == fields.len() {
        assert(fields.take(i) =~= fields);
    } else {
        lemma_fields_end_step(fields, i);
        lemma_align_of_bounds(fields[i]);
        lemma_align_up(fields_end(fields.take(i)), align_of(fields[i]));
        lemma_fields_end_prefix(fields, i + 1);
    }
}

/// A structure is at least as large as the span of its fields.
pub proof fn lemma_struct_size_ge_fields_end(fields: Seq<TypeDescriptor>)
    ensures
        fields_end(fields) <= align_up(fields_end(fields), struct_align(fields)),
        align_up(fields_end(fields), struct_align(fields)) % struct_align(fields) == 0,
{
    lemma_struct_align_bounds(fields);
    lemma_align_up(fields_end(fields), struct_align(fields));
}

/// A structure resolves to the layout the platform ABI would assign the
/// equivalent C record: every field sits at an offset that is a multiple of
/// its own alignment, consecutive fields do not overlap, and every field
/// lies inside the span of the structure.
pub proof fn lemma_struct_field_placement(fields: Seq<TypeDescriptor>, i: int)
    requires
        0 <= i < fields.len(),
    ensures
        field_offset(fields, i) % align_of(fields[i]) == 0,
        field_offset(fields, i) + size_of(fields[i]) <= fields_end(fields),
        i > 0 ==> field_offset(fields, i - 1) + size_of(fields[i - 1]) <= field_offset(fields, i),
{
    lemma_align_of_bounds(fields[i]);
    lemma_align_up(fields_end(fields.take(i)), align_of(fields[i]));
    lemma_fields_end_step(fields, i);
    lemma_fields_end_prefix(fields, i + 1);
    if i > 0 {
        lemma_fields_end_step(fields, i - 1);
    }
}

/// For every scalar kind, the resolved layout a compiled interface reports
/// for that kind is the platform's standard size and alignment.
pub proof fn lemma_primitive_resolution(k: PrimitiveKind)
    ensures
        size_of(TypeDescriptor::Primitive(k)) == kind_size(k),
        align_of(TypeDescriptor::Primitive(k)) == kind_align(k),
{
}

/// The resolved size and alignment of a scalar kind.
pub fn kind_layout(k: PrimitiveKind) -> (r: (usize, usize))
    ensures
        r.0 == kind_size(k),
        r.1 == kind_align(k),
{
    match k {
        PrimitiveKind::UInt8 => (1, 1),
        PrimitiveKind::SInt8 => (1, 1),
        PrimitiveKind::UInt16 => (2, 2),
        PrimitiveKind::SInt16 => (2, 2),
        PrimitiveKind::UInt32 => (4, 4),
        PrimitiveKind::SInt32 => (4, 4),
        PrimitiveKind::UInt64 => (8, 8),
        PrimitiveKind::SInt64 => (8, 8),
        PrimitiveKind::Float => (4, 4),
        PrimitiveKind::Double => (8, 8),
    }
}

/// Decides well-formedness of a descriptor.
#[verifier::loop_isolation(false)]
pub fn is_well_formed(t: &TypeDescriptor) -> (r: bool)
    ensures
        r == well_formed(*t),
    decreases *t,
{
    match t {
        TypeDescriptor::Void => true,
        TypeDescriptor::Primitive(_) => true,
        TypeDescriptor::Pointer => true,
        TypeDescriptor::Structure(fields) => {
            proof {
                lemma_fields_well_formed_iff(fields@);
            }
            if fields.len() == 0 {
                return false;
            }
            let n: usize = fields.len();
            let mut i: usize = 0;
            while i < n
                invariant
                    0 <= i <= n,
                    forall|j: int| 0 <= j < i ==> sized_type(#[trigger] fields@[j]),
                decreases n - i,
            {
                let field = &fields[i];
                let field_sized: bool = match field {
                    TypeDescriptor::Void => false,
                    _ => is_well_formed(field),
                };
                if !field_sized {
                    return false;
                }
                i = i + 1;
            }
            true
        },
    }
}

/// Decides whether a type may stand as an argument or structure field.
pub fn is_sized_type(t: &TypeDescriptor) -> (r: bool)
    ensures
        r == sized_type(*t),
{
    match t {
        TypeDescriptor::Void => false,
        _ => is_well_formed(t),
    }
}

/// Rounds an offset up to a small alignment without overflowing.
fn align_up_exec(off: u64, a: u64) -> (r: u64)
    requires
        1 <= a <= 8,
        off <= MAX_TYPE_SIZE as u64,
    ensures
        r == align_up(off as nat, a as nat),
        r < off + a,
        off <= r,
{
    proof {
        lemma_align_up(off as nat, a as nat);
        lemma_fundamental_div_mod((off + a - 1) as int, a as int);
    }
    ((off + a - 1) / a) * a
}

/// Resolves the native size and alignment of a type, as the platform ABI
/// would assign them: `None` exactly when the type is too large for a
/// compiled interface to carry.
#[verifier::loop_isolation(false)]
pub fn layout(t: &TypeDescriptor) -> (r: Option<(usize, usize)>)
    ensures
        r is Some <==> size_of(*t) <= MAX_TYPE_SIZE as nat,
        r matches Some(sa) ==> sa.0 == size_of(*t) && sa.1 == align_of(*t),
    decreases *t,
{
    match t {
        TypeDescriptor::Void => Some((1, 1)),
        TypeDescriptor::Primitive(k) => Some(kind_layout(*k)),
        TypeDescriptor::Pointer => Some((8, 8)),
        TypeDescriptor::Structure(fields) => {
            let n: usize = fields.len();
            let mut end: u64 = 0;
            let mut al: u64 = 1;
            let mut i: usize = 0;
            while i < n
                invariant
                    0 <= i <= n,
                    end == fields_end(fields@.take(i as int)),
                    al == struct_align(fields@.take(i as int)),
                    end <= MAX_TYPE_SIZE as u64,
                    1 <= al <= 8,
                decreases n - i,
            {
                let field = &fields[i];
                let field_layout = layout(field);
                proof {
                    lemma_align_of_bounds(fields@[i as int]);
                    lemma_fields_end_step(fields@, i as int);
                    lemma_align_up(
                        fields_end(fields@.take(i as int)),
                        align_of(fields@[i as int]),
                    );
                }
                match field_layout {
                    None => {
                        proof {
                            lemma_fields_end_prefix(fields@, i as int + 1);
                            lemma_struct_size_ge_fields_end(fields@);
                        }
                        return None;
                    },
                    Some((fsize, falign)) => {
                        let aligned = align_up_exec(end, falign as u64);
                        let new_end = aligned + (fsize as u64);
                        if new_end > MAX_TYPE_SIZE as u64 {
                            proof {
                                lemma_fields_end_prefix(fields@, i as int + 1);
                                lemma_struct_size_ge_fields_end(fields@);
                            }
                            return None;
                        }
                        proof {
                            lemma_struct_align_push(
                                fields@.take(i as int),
                                fields@[i as int],
                            );
                            assert(fields@.take(i as int).push(fields@[i as int]) =~= fields@.take(
                                i as int + 1,
                            ));
                        }
                        end = new_end;
                        if (falign as u64) > al {
                            al = falign as u64;
                        }
                        i = i + 1;
                    },
                }
            }
            proof {
                assert(fields@.take(n as int) =~= fields@);
            }
            let size = align_up_exec(end, al);
            if size > MAX_TYPE_SIZE as u64 {
                return None;
            }
            Some((size as usize, al as usize))
        },
    }
}

/// Resolves the byte offset of every field of a structure descriptor, as
/// the platform ABI would place them: `None` exactly when the fields span
/// more than a compiled interface can carry.
#[verifier::loop_isolation(false)]
pub fn struct_offsets(t: &TypeDescriptor) -> (r: Option<Vec<usize>>)
    requires
        *t is Structure,
    ensures
        r is Some <==> fields_end((*t)->Structure_0@) <= MAX_TYPE_SIZE as nat,
        r matches Some(offs) ==> offs@.len() == (*t)->Structure_0@.len() && (forall|i: int|
            0 <= i < (*t)->Structure_0@.len() ==> #[trigger] offs@[i] == field_offset((*t)->Structure_0@, i)),
    decreases *t,
{
    match t {
        TypeDescriptor::Structure(fields) => {
            let n: usize = fields.len();
            let mut offs: Vec<usize> = Vec::new();
            let mut end: u64 = 0;
            let mut i: usize = 0;
            while i < n
                invariant
                    i <= n,
                    offs@.len() == i,
                    end == fields_end(fields@.take(i as int)),
                    end <= MAX_TYPE_SIZE as u64,
                    forall|j: int| 0 <= j < i ==> #[trigger] offs@[j] == field_offset(fields@, j),
                decreases n - i,
            {
                let field = &fields[i];
                let field_layout = layout(field);
                proof {
                    lemma_align_of_bounds(fields@[i as int]);
                    lemma_fields_end_step(fields@, i as int);
                    lemma_align_up(
                        fields_end(fields@.take(i as int)),
                        align_of(fields@[i as int]),
                    );
                }
                match field_layout {
                    None => {
                        proof {
                            lemma_fields_end_prefix(fields@, i as int + 1);
                        }
                        return None;
                    },
                    Some((fsize, falign)) => {
                        let aligned = align_up_exec(end, falign as u64);
                        let new_end = aligned + (fsize as u64);
                        if new_end > MAX_TYPE_SIZE as u64 {
                            proof {
                                lemma_fields_end_prefix(fields@, i as int + 1);
                            }
                            return None;
                        }
                        offs.push(aligned as usize);
                        end = new_end;
                        i = i + 1;
                    },
                }
            }
            proof {
                assert(fields@.take(n as int) =~= fields@);
            }
            Some(offs)
        },
        _ => unreached(),
    }
}

/// A descriptor for the `void` return type.
pub fn void() -> (r: TypeDescriptor)
    ensures
        r == TypeDescriptor::Void,
{
    TypeDescriptor::Void
}

/// A descriptor for the untyped native pointer.
pub fn pointer() -> (r: TypeDescriptor)
    ensures
        r == TypeDescriptor::Pointer,
{
    TypeDescriptor::Pointer
}

/// A descriptor for one scalar kind.
pub fn primitive(kind: PrimitiveKind) -> (r: TypeDescriptor)
    ensures
        r == TypeDescriptor::Primitive(kind),
{
    TypeDescriptor::Primitive(kind)
}

/// Builds a structure descriptor over an ordered field sequence, taking
/// ownership of it so that every interface compiled from the descriptor
/// keeps the field layout it references alive.
///
/// Fails with [`FfiError::InvalidLayout`] exactly when the field list is
/// empty or some field is itself invalid as a structure member.
#[verifier::loop_isolation(false)]
pub fn structure(fields: Vec<TypeDescriptor>) -> (r: Result<TypeDescriptor, FfiError>)
    ensures
        r is Ok <==> fields@.len() > 0 && fields_well_formed(fields@),
        r matches Ok(t) ==> t == TypeDescriptor::Structure(fields),
        r matches Err(e) ==> e == FfiError::InvalidLayout,
{
    proof {
        lemma_fields_well_formed_iff(fields@);
    }
    if fields.len() == 0 {
        return Err(FfiError::InvalidLayout);
    }
    let n: usize = fields.len();
    let mut i: usize = 0;
    while i < n
        invariant
            0 <= i <= n,
            n == fields@.len(),
            forall|j: int| 0 <= j < i ==> sized_type(#[trigger] fields@[j]),
        decreases n - i,
    {
        if !is_sized_type(&fields[i]) {
            return Err(FfiError::InvalidLayout);
        }
        i = i + 1;
    }
    Ok(TypeDescriptor::Structure(fields))
}

} // verus!
