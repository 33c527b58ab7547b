//! Marshaling values into the positional, type-erased form a compiled
//! signature expects.
//!
//! A call argument travels as an [`ArgumentHandle`]: the little-endian bytes
//! of the caller's value, in declaration order, with no runtime type tag the
//! dispatcher would check — correspondence between handle `i` and declared
//! argument type `i` is the caller's contract. [`CValue`] is the tagged form
//! a value takes on either side of that boundary: when a caller supplies an
//! argument, and when a closure's shim decodes the arguments an incoming
//! native call delivered.

use crate::descriptor::{size_of, sized_type, PrimitiveKind, TypeDescriptor};
use vstd::arithmetic::div_mod::{
    lemma_breakdown, lemma_div_basics, lemma_div_denominator, lemma_fundamental_div_mod_converse,
    lemma_small_mod,
};
use vstd::pervasive::arbitrary;
use vstd::pervasive::unreached;
use vstd::prelude::*;

verus! {

/// `256` raised to the `n`th power: the number of values `n` bytes can hold.
pub open spec fn pow256(n: nat) -> nat
    decreases n,
{
    if n == 0 {
        1
    } else {
        256 * pow256((n - 1) as nat)
    }
}

/// The value of a byte sequence read as a little-endian unsigned integer.
pub open spec fn le_value(s: Seq<u8>) -> nat
    decreases s,
{
    if s.len() == 0 {
        0
    } else {
        (s[0] as nat) + 256 * le_value(s.drop_first())
    }
}

/// The little-endian bytes of `v`, truncated or zero-extended to `width`
/// bytes.
pub open spec fn le_bytes_of(v: nat, width: nat) -> Seq<u8>
    decreases width,
{
    if width == 0 {
        Seq::empty()
    } else {
        seq![(v % 256) as u8].add(le_bytes_of(v / 256, (width - 1) as nat))
    }
}

/// The two's-complement unsigned representation of a signed value in
/// `width` bytes.
pub open spec fn to_unsigned(v: int, width: nat) -> nat
    recommends
        -(pow256(width) as int) / 2 <= v < pow256(width) / 2,
{
    if v >= 0 {
        v as nat
    } else {
        (v + pow256(width)) as nat
    }
}

/// The signed value a byte slot holds, read as two's complement at the
/// slot's own width.
pub open spec fn signed_of(s: Seq<u8>) -> int {
    if le_value(s) < pow256(s.len()) / 2 {
        le_value(s) as int
    } else {
        le_value(s) - pow256(s.len())
    }
}

/// Every width admits at least one value.
pub proof fn lemma_pow256_pos(n: nat)
    ensures
        pow256(n) >= 1,
    decreases n,
{
    if n > 0 {
        lemma_pow256_pos((n - 1) as nat);
    }
}

/// A byte sequence's value fits in its own width.
pub proof fn lemma_le_value_bound(s: Seq<u8>)
    ensures
        le_value(s) < pow256(s.len()),
    decreases s,
{
    if s.len() == 0 {
    } else {
        lemma_le_value_bound(s.drop_first());
    }
}

/// Appending one byte adds its value at the next power of 256.
pub proof fn lemma_le_value_push(s: Seq<u8>, b: u8)
    ensures
        le_value(s.push(b)) == le_value(s) + (b as nat) * pow256(s.len()),
    decreases s,
{
    if s.len() == 0 {
        reveal_with_fuel(le_value, 2);
        assert(s.push(b)[0] == b);
        assert(s.push(b).drop_first() =~= s);
        assert(le_value(s.push(b)) == b);
        assert(le_value(s) == 0);
        assert(pow256(s.len()) == 1);
        assert((b as nat) * 1 == b as nat) by (nonlinear_arith);
    } else {
        assert(s.push(b)[0] == s[0]);
        assert(s.push(b).drop_first() =~= s.drop_first().push(b));
        lemma_le_value_push(s.drop_first(), b);
        assert(le_value(s.push(b)) == (s[0] as nat) + 256 * (le_value(s.drop_first()) + (
        b as nat) * pow256((s.len() - 1) as nat)));
        assert(pow256(s.len()) == 256 * pow256((s.len() - 1) as nat));
        assert(256 * ((b as nat) * pow256((s.len() - 1) as nat)) == (b as nat) * (256 * pow256(
            (s.len() - 1) as nat,
        ))) by (nonlinear_arith);
    }
}

/// A byte sequence's value splits at any point into the value of the prefix
/// plus the value of the suffix shifted past it.
pub proof fn lemma_le_value_split(s: Seq<u8>, k: int)
    requires
        0 <= k <= s.len(),
    ensures
        le_value(s) == le_value(s.take(k)) + pow256(k as nat) * le_value(s.skip(k)),
    decreases s.len() - k,
{
    if k == s.len() {
        assert(s.take(k) =~= s);
        assert(s.skip(k) =~= Seq::<u8>::empty());
        lemma_pow256_pos(k as nat);
        assert(le_value(s.skip(k)) == 0);
        assert(pow256(k as nat) * 0 == 0) by (nonlinear_arith);
        assert(le_value(s) == le_value(s.take(k)) + pow256(k as nat) * le_value(s.skip(k)));
    } else {
        lemma_le_value_split(s, k + 1);
        assert(s.take(k + 1) =~= s.take(k).push(s[k]));
        lemma_le_value_push(s.take(k), s[k]);
        assert(s.skip(k).drop_first() =~= s.skip(k + 1));
        assert(le_value(s.skip(k)) == s[k] + 256 * le_value(s.skip(k + 1)));
        let p = pow256(k as nat);
        let b = s[k] as nat;
        let rest = le_value(s.skip(k + 1));
        assert(pow256((k + 1) as nat) == 256 * p);
        assert(p * (b + 256 * rest) == p * b + (256 * p) * rest) by (nonlinear_arith);
        assert(b * p == p * b) by (nonlinear_arith);
    }
}

/// Truncating a little-endian byte sequence to its first `k` bytes reduces
/// its value modulo `256^k`: exactly the native narrowing a call slot
/// performs when a wider value is passed in a narrower slot.
pub proof fn lemma_le_value_take_mod(s: Seq<u8>, k: int)
    requires
        0 <= k <= s.len(),
    ensures
        le_value(s.take(k)) == le_value(s) % pow256(k as nat),
{
    lemma_le_value_split(s, k);
    lemma_le_value_bound(s.take(k));
    lemma_pow256_pos(k as nat);
    assert(pow256(k as nat) * le_value(s.skip(k)) == le_value(s.skip(k)) * pow256(k as nat))
        by (nonlinear_arith);
    lemma_fundamental_div_mod_converse(
        le_value(s) as int,
        pow256(k as nat) as int,
        le_value(s.skip(k)) as int,
        le_value(s.take(k)) as int,
    );
}

/// The generated little-endian bytes have the requested width.
pub proof fn lemma_le_bytes_of_len(v: nat, width: nat)
    ensures
        le_bytes_of(v, width).len() == width,
    decreases width,
{
    if width > 0 {
        lemma_le_bytes_of_len(v / 256, (width - 1) as nat);
    }
}

/// Extending the width by one appends the next base-256 digit.
pub proof fn lemma_le_bytes_of_push(v: nat, width: nat)
    ensures
        le_bytes_of(v, width + 1) == le_bytes_of(v, width).push(
            ((v / pow256(width)) % 256) as u8,
        ),
    decreases width,
{
    lemma_le_bytes_of_len(v, width);
    if width == 0 {
        reveal_with_fuel(le_bytes_of, 3);
        lemma_div_basics(v as int);
        assert(v / pow256(0) == v);
        assert(le_bytes_of(v, 1) =~= le_bytes_of(v, 0).push((v % 256) as u8));
    } else {
        lemma_le_bytes_of_push(v / 256, (width - 1) as nat);
        lemma_pow256_pos((width - 1) as nat);
        assert((v / 256) / pow256((width - 1) as nat) == v / pow256(width)) by {
            lemma_div_denominator(v as int, 256, pow256((width - 1) as nat) as int);
        }
        assert(le_bytes_of(v, width + 1) =~= le_bytes_of(v, width).push(
            ((v / pow256(width)) % 256) as u8,
        ));
    }
}

/// Wider slots hold at least as many values.
pub proof fn lemma_pow256_mono(a: nat, b: nat)
    requires
        a <= b,
    ensures
        pow256(a) <= pow256(b),
    decreases b,
{
    if a < b {
        lemma_pow256_mono(a, (b - 1) as nat);
        lemma_pow256_pos((b - 1) as nat);
    }
}

/// The generated bytes carry the value reduced to the requested width.
pub proof fn lemma_le_bytes_of_value(v: nat, width: nat)
    ensures
        le_value(le_bytes_of(v, width)) == v % pow256(width),
    decreases width,
{
    lemma_pow256_pos(width);
    if width == 0 {
        lemma_small_mod(0, 1);
        assert(v % 1 == 0) by {
            lemma_fundamental_div_mod_converse(v as int, 1, v as int, 0);
        }
    } else {
        lemma_le_bytes_of_value(v / 256, (width - 1) as nat);
        let tail = le_bytes_of(v / 256, (width - 1) as nat);
        assert(le_bytes_of(v, width).drop_first() =~= tail);
        assert(le_value(le_bytes_of(v, width)) == (v % 256) + 256 * ((v / 256) % pow256(
            (width - 1) as nat,
        )));
        lemma_breakdown(v as int, 256, pow256((width - 1) as nat) as int);
    }
}

/// Encodes the low `width` bytes of `v`, little-endian.
#[verifier::loop_isolation(false)]
pub fn encode_le(v: u64, width: usize) -> (r: Vec<u8>)
    ensures
        r@.len() == width,
        r@ == le_bytes_of(v as nat, width as nat),
        le_value(r@) == (v as nat) % pow256(width as nat),
{
    let mut out: Vec<u8> = Vec::new();
    let mut cur: u64 = v;
    let mut i: usize = 0;
    proof {
        lemma_div_basics(v as int);
        assert(out@ =~= le_bytes_of(v as nat, 0));
    }
    while i < width
        invariant
            i <= width,
            out@.len() == i,
            out@ == le_bytes_of(v as nat, i as nat),
            cur == (v as nat) / pow256(i as nat),
        decreases width - i,
    {
        let b: u8 = (cur % 256) as u8;
        proof {
            lemma_pow256_pos(i as nat);
            lemma_le_bytes_of_push(v as nat, i as nat);
            lemma_div_denominator(v as int, pow256(i as nat) as int, 256);
            assert(pow256((i + 1) as nat) == 256 * pow256(i as nat));
        }
        out.push(b);
        cur = cur / 256;
        i = i + 1;
    }
    proof {
        lemma_le_bytes_of_value(v as nat, width as nat);
    }
    out
}

/// Reads a slot of at most eight bytes as a little-endian unsigned value.
#[verifier::loop_isolation(false)]
pub fn decode_le(bytes: &Vec<u8>) -> (r: u64)
    requires
        bytes@.len() <= 8,
    ensures
        r == le_value(bytes@),
{
    let n: usize = bytes.len();
    let mut acc: u64 = 0;
    let mut i: usize = 0;
    proof {
        assert(bytes@.skip(n as int) =~= Seq::<u8>::empty());
        reveal_with_fuel(pow256, 9);
    }
    while i < n
        invariant
            i <= n,
            acc == le_value(bytes@.skip((n - i) as int)),
            acc < pow256(i as nat),
        decreases n - i,
    {
        let idx: usize = n - 1 - i;
        let b: u8 = bytes[idx];
        proof {
            let k = (n - i - 1) as int;
            assert(bytes@.skip(k)[0] == bytes@[k]);
            assert(bytes@.skip(k).drop_first() =~= bytes@.skip(k + 1));
            lemma_le_value_bound(bytes@.skip(k));
            lemma_pow256_mono((i + 1) as nat, 8);
        }
        acc = acc * 256 + (b as u64);
        i = i + 1;
    }
    proof {
        assert(bytes@.skip(0) =~= bytes@);
    }
    acc
}

/// Copies a byte buffer.
#[verifier::loop_isolation(false)]
fn copy_bytes(src: &Vec<u8>) -> (r: Vec<u8>)
    ensures
        r@ == src@,
{
    let n: usize = src.len();
    let mut out: Vec<u8> = Vec::new();
    let mut i: usize = 0;
    while i < n
        invariant
            i <= n,
            out@.len() == i,
            forall|j: int| 0 <= j < i ==> out@[j] == src@[j],
        decreases n - i,
    {
        out.push(src[i]);
        i = i + 1;
    }
    proof {
        assert(out@ =~= src@);
    }
    out
}

/// A call argument or closure-side value in its tagged form: one variant
/// per scalar kind the platform passes by value, the untyped pointer, and
/// raw bytes for aggregates and for the kinds the library does not take
/// apart.
#[derive(Debug)]
pub enum CValue {
    UInt8(u8),
    SInt8(i8),
    UInt16(u16),
    SInt16(i16),
    UInt32(u32),
    SInt32(i32),
    UInt64(u64),
    SInt64(i64),
    Pointer(usize),
    Raw(Vec<u8>),
}

/// The little-endian bytes a value occupies in its call slot.
pub open spec fn value_bytes(v: CValue) -> Seq<u8> {
    match v {
        CValue::UInt8(x) => le_bytes_of(x as nat, 1),
        CValue::SInt8(x) => le_bytes_of(to_unsigned(x as int, 1), 1),
        CValue::UInt16(x) => le_bytes_of(x as nat, 2),
        CValue::SInt16(x) => le_bytes_of(to_unsigned(x as int, 2), 2),
        CValue::UInt32(x) => le_bytes_of(x as nat, 4),
        CValue::SInt32(x) => le_bytes_of(to_unsigned(x as int, 4), 4),
        CValue::UInt64(x) => le_bytes_of(x as nat, 8),
        CValue::SInt64(x) => le_bytes_of(to_unsigned(x as int, 8), 8),
        CValue::Pointer(p) => le_bytes_of(p as nat, 8),
        CValue::Raw(b) => b@,
    }
}

/// The descriptor a scalar or pointer value intrinsically carries; raw
/// bytes carry none.
pub open spec fn spec_descriptor_of(v: CValue) -> Option<TypeDescriptor> {
    match v {
        CValue::UInt8(_) => Some(TypeDescriptor::Primitive(PrimitiveKind::UInt8)),
        CValue::SInt8(_) => Some(TypeDescriptor::Primitive(PrimitiveKind::SInt8)),
        CValue::UInt16(_) => Some(TypeDescriptor::Primitive(PrimitiveKind::UInt16)),
        CValue::SInt16(_) => Some(TypeDescriptor::Primitive(PrimitiveKind::SInt16)),
        CValue::UInt32(_) => Some(TypeDescriptor::Primitive(PrimitiveKind::UInt32)),
        CValue::SInt32(_) => Some(TypeDescriptor::Primitive(PrimitiveKind::SInt32)),
        CValue::UInt64(_) => Some(TypeDescriptor::Primitive(PrimitiveKind::UInt64)),
        CValue::SInt64(_) => Some(TypeDescriptor::Primitive(PrimitiveKind::SInt64)),
        CValue::Pointer(_) => Some(TypeDescriptor::Pointer),
        CValue::Raw(_) => None,
    }
}

/// The descriptor derived for a scalar or pointer value.
pub open spec fn derived_type(v: CValue) -> TypeDescriptor {
    match spec_descriptor_of(v) {
        Some(t) => t,
        None => arbitrary(),
    }
}

/// The descriptors derived for an argument list, position by position.
pub open spec fn derived_types(vs: Seq<CValue>) -> Seq<TypeDescriptor> {
    Seq::new(vs.len(), |i: int| derived_type(vs[i]))
}

/// Whether a value may legally fill a slot declared with descriptor `t`:
/// a scalar or pointer must carry exactly that descriptor, and raw bytes
/// must span exactly the declared size.
pub open spec fn matches_descriptor(v: CValue, t: TypeDescriptor) -> bool {
    match v {
        CValue::Raw(b) => sized_type(t) && b@.len() == size_of(t),
        _ => spec_descriptor_of(v) == Some(t),
    }
}

/// Derives the descriptor of a scalar or pointer value: the convenience
/// layer that maps host values to their declared types.
pub fn descriptor_of(v: &CValue) -> (r: Option<TypeDescriptor>)
    ensures
        r == spec_descriptor_of(*v),
{
    match v {
        CValue::UInt8(_) => Some(TypeDescriptor::Primitive(PrimitiveKind::UInt8)),
        CValue::SInt8(_) => Some(TypeDescriptor::Primitive(PrimitiveKind::SInt8)),
        CValue::UInt16(_) => Some(TypeDescriptor::Primitive(PrimitiveKind::UInt16)),
        CValue::SInt16(_) => Some(TypeDescriptor::Primitive(PrimitiveKind::SInt16)),
        CValue::UInt32(_) => Some(TypeDescriptor::Primitive(PrimitiveKind::UInt32)),
        CValue::SInt32(_) => Some(TypeDescriptor::Primitive(PrimitiveKind::SInt32)),
        CValue::UInt64(_) => Some(TypeDescriptor::Primitive(PrimitiveKind::UInt64)),
        CValue::SInt64(_) => Some(TypeDescriptor::Primitive(PrimitiveKind::SInt64)),
        CValue::Pointer(_) => Some(TypeDescriptor::Pointer),
        CValue::Raw(_) => None,
    }
}

/// A non-owning, positional view of one call argument: the bytes the value
/// occupies in its slot, with no runtime type tag. Handle `i` of a dispatch
/// must correspond to declared argument type `i`; that correspondence is
/// the caller's contract and is never checked against a tag.
pub struct ArgumentHandle {
    bytes: Vec<u8>,
}

impl View for ArgumentHandle {
    type V = Seq<u8>;

    closed spec fn view(&self) -> Seq<u8> {
        self.bytes@
    }
}

impl ArgumentHandle {
    /// Wraps one value as a type-erased argument handle holding exactly the
    /// value's slot bytes.
    pub fn wrap(v: &CValue) -> (h: ArgumentHandle)
        ensures
            h@ == value_bytes(*v),
    {
        proof {
            reveal_with_fuel(pow256, 9);
        }
        let bytes: Vec<u8> = match v {
            CValue::UInt8(x) => encode_le(*x as u64, 1),
            CValue::SInt8(x) => {
                if *x >= 0 {
                    encode_le(*x as u64, 1)
                } else {
                    encode_le(((*x as i64) + 256) as u64, 1)
                }
            },
            CValue::UInt16(x) => encode_le(*x as u64, 2),
            CValue::SInt16(x) => {
                if *x >= 0 {
                    encode_le(*x as u64, 2)
                } else {
                    encode_le(((*x as i64) + 65536) as u64, 2)
                }
            },
            CValue::UInt32(x) => encode_le(*x as u64, 4),
            CValue::SInt32(x) => {
                if *x >= 0 {
                    encode_le(*x as u64, 4)
                } else {
                    encode_le(((*x as i64) + 4294967296) as u64, 4)
                }
            },
            CValue::UInt64(x) => encode_le(*x, 8),
            CValue::SInt64(x) => {
                if *x >= 0 {
                    encode_le(*x as u64, 8)
                } else {
                    encode_le(((*x as i128) + 18446744073709551616i128) as u64, 8)
                }
            },
            CValue::Pointer(p) => encode_le(*p as u64, 8),
            CValue::Raw(b) => copy_bytes(b),
        };
        ArgumentHandle { bytes }
    }

    /// The number of bytes the handle occupies.
    pub fn size(&self) -> (r: usize)
        ensures
            r == self@.len(),
    {
        self.bytes.len()
    }

    /// The slot bytes the handle refers to.
    pub fn slot_bytes(&self) -> (r: &Vec<u8>)
        ensures
            r@ == self@,
    {
        &self.bytes
    }

    /// Consumes the handle, yielding its slot bytes.
    pub fn into_bytes(self) -> (r: Vec<u8>)
        ensures
            r@ == self@,
    {
        self.bytes
    }
}

/// Whether a scalar kind is one the library decodes into a tagged value;
/// the floating-point kinds stay as raw bytes.
pub open spec fn scalar_kind(k: PrimitiveKind) -> bool {
    !(k is Float) && !(k is Double)
}

/// The value a slot holds under a declared scalar or pointer descriptor:
/// unsigned kinds read the slot as-is, signed kinds read it as two's
/// complement at the slot's width.
pub open spec fn decoded(t: TypeDescriptor, s: Seq<u8>) -> CValue
    recommends
        s.len() == size_of(t),
{
    match t {
        TypeDescriptor::Primitive(k) => match k {
            PrimitiveKind::UInt8 => CValue::UInt8(le_value(s) as u8),
            PrimitiveKind::SInt8 => CValue::SInt8(signed_of(s) as i8),
            PrimitiveKind::UInt16 => CValue::UInt16(le_value(s) as u16),
            PrimitiveKind::SInt16 => CValue::SInt16(signed_of(s) as i16),
            PrimitiveKind::UInt32 => CValue::UInt32(le_value(s) as u32),
            PrimitiveKind::SInt32 => CValue::SInt32(signed_of(s) as i32),
            PrimitiveKind::UInt64 => CValue::UInt64(le_value(s) as u64),
            PrimitiveKind::SInt64 => CValue::SInt64(signed_of(s) as i64),
            PrimitiveKind::Float => arbitrary(),
            PrimitiveKind::Double => arbitrary(),
        },
        TypeDescriptor::Pointer => CValue::Pointer(le_value(s) as usize),
        TypeDescriptor::Void => arbitrary(),
        TypeDescriptor::Structure(_) => arbitrary(),
    }
}

/// What a correct decoding of slot bytes `s` declared as `t` must return:
/// scalar and pointer slots decode to their tagged value, while aggregates
/// and floating-point slots pass through as their raw bytes.
pub open spec fn well_decoded(t: TypeDescriptor, s: Seq<u8>, v: CValue) -> bool {
    if (t matches TypeDescriptor::Primitive(k) && scalar_kind(k)) || t is Pointer {
        v == decoded(t, s)
    } else {
        v matches CValue::Raw(b) && b@ == s
    }
}

/// Decodes one slot according to its declared descriptor: this is the
/// contract of a closure shim's argument decoding and of reading a
/// dispatch's return buffer. Scalar and pointer slots come back as tagged
/// values; aggregates and floating-point slots come back as their raw
/// bytes.
pub fn decode_value(t: &TypeDescriptor, bytes: &Vec<u8>) -> (r: CValue)
    requires
        bytes@.len() == size_of(*t),
        !(*t is Void),
    ensures
        well_decoded(*t, bytes@, r),
{
    proof {
        reveal_with_fuel(pow256, 9);
        lemma_le_value_bound(bytes@);
    }
    match t {
        TypeDescriptor::Void => unreached(),
        TypeDescriptor::Pointer => {
            let x = decode_le(bytes);
            CValue::Pointer(x as usize)
        },
        TypeDescriptor::Structure(_) => CValue::Raw(copy_bytes(bytes)),
        TypeDescriptor::Primitive(k) => match k {
            PrimitiveKind::UInt8 => {
                let x = decode_le(bytes);
                CValue::UInt8(x as u8)
            },
            PrimitiveKind::SInt8 => {
                let x = decode_le(bytes);
                if x < 128 {
                    CValue::SInt8(x as i8)
                } else {
                    CValue::SInt8(((x as i64) - 256) as i8)
                }
            },
            PrimitiveKind::UInt16 => {
                let x = decode_le(bytes);
                CValue::UInt16(x as u16)
            },
            PrimitiveKind::SInt16 => {
                let x = decode_le(bytes);
                if x < 32768 {
                    CValue::SInt16(x as i16)
                } else {
                    CValue::SInt16(((x as i64) - 65536) as i16)
                }
            },
            PrimitiveKind::UInt32 => {
                let x = decode_le(bytes);
                CValue::UInt32(x as u32)
            },
            PrimitiveKind::SInt32 => {
                let x = decode_le(bytes);
                if x < 2147483648 {
                    CValue::SInt32(x as i32)
                } else {
                    CValue::SInt32(((x as i64) - 4294967296) as i32)
                }
            },
            PrimitiveKind::UInt64 => {
                let x = decode_le(bytes);
                CValue::UInt64(x)
            },
            PrimitiveKind::SInt64 => {
                let x = decode_le(bytes);
                if x < 9223372036854775808 {
                    CValue::SInt64(x as i64)
                } else {
                    CValue::SInt64(((x as i128) - 18446744073709551616i128) as i64)
                }
            },
            PrimitiveKind::Float => CValue::Raw(copy_bytes(bytes)),
            PrimitiveKind::Double => CValue::Raw(copy_bytes(bytes)),
        },
    }
}

/// Wrapping a scalar or pointer value and decoding its slot under the
/// value's own descriptor returns the value unchanged: marshaling loses
/// nothing on the way into a call and back out of a closure.
pub proof fn lemma_wrap_decode_roundtrip(v: CValue)
    requires
        !(v is Raw),
    ensures
        spec_descriptor_of(v) matches Some(t) && decoded(t, value_bytes(v)) == v,
{
    reveal_with_fuel(pow256, 9);
    match v {
        CValue::UInt8(x) => {
            lemma_le_bytes_of_value(x as nat, 1);
            lemma_small_mod(x as nat, pow256(1));
        },
        CValue::SInt8(x) => {
            lemma_le_bytes_of_value(to_unsigned(x as int, 1), 1);
            lemma_small_mod(to_unsigned(x as int, 1), pow256(1));
            lemma_le_bytes_of_len(to_unsigned(x as int, 1), 1);
        },
        CValue::UInt16(x) => {
            lemma_le_bytes_of_value(x as nat, 2);
            lemma_small_mod(x as nat, pow256(2));
        },
        CValue::SInt16(x) => {
            lemma_le_bytes_of_value(to_unsigned(x as int, 2), 2);
            lemma_small_mod(to_unsigned(x as int, 2), pow256(2));
            lemma_le_bytes_of_len(to_unsigned(x as int, 2), 2);
        },
        CValue::UInt32(x) => {
            lemma_le_bytes_of_value(x as nat, 4);
            lemma_small_mod(x as nat, pow256(4));
        },
        CValue::SInt32(x) => {
            lemma_le_bytes_of_value(to_unsigned(x as int, 4), 4);
            lemma_small_mod(to_unsigned(x as int, 4), pow256(4));
            lemma_le_bytes_of_len(to_unsigned(x as int, 4), 4);
        },
        CValue::UInt64(x) => {
            lemma_le_bytes_of_value(x as nat, 8);
            lemma_small_mod(x as nat, pow256(8));
        },
        CValue::SInt64(x) => {
            lemma_le_bytes_of_value(to_unsigned(x as int, 8), 8);
            lemma_small_mod(to_unsigned(x as int, 8), pow256(8));
            lemma_le_bytes_of_len(to_unsigned(x as int, 8), 8);
        },
        CValue::Pointer(p) => {
            lemma_le_bytes_of_value(p as nat, 8);
            lemma_small_mod(p as nat, pow256(8));
        },
        CValue::Raw(_) => {},
    }
}

/// A wider unsigned value dispatched into an 8-bit unsigned slot wraps
/// modulo 256: the callee sees exactly the low byte, as native truncation
/// rules dictate.
pub proof fn lemma_unsigned_narrowing(x: u32)
    ensures
        value_bytes(CValue::UInt32(x)).len() == 4,
        decoded(
            TypeDescriptor::Primitive(PrimitiveKind::UInt8),
            value_bytes(CValue::UInt32(x)).take(1),
        ) == CValue::UInt8((x as nat % 256) as u8),
{
    reveal_with_fuel(pow256, 9);
    let s = value_bytes(CValue::UInt32(x));
    lemma_le_bytes_of_len(x as nat, 4);
    lemma_le_bytes_of_value(x as nat, 4);
    lemma_small_mod(x as nat, pow256(4));
    lemma_le_value_take_mod(s, 1);
}

/// A wrapped value fills exactly the slot its descriptor declares.
pub proof fn lemma_value_bytes_len(v: CValue, t: TypeDescriptor)
    requires
        matches_descriptor(v, t),
    ensures
        value_bytes(v).len() == size_of(t),
{
    match v {
        CValue::UInt8(x) => lemma_le_bytes_of_len(x as nat, 1),
        CValue::SInt8(x) => lemma_le_bytes_of_len(to_unsigned(x as int, 1), 1),
        CValue::UInt16(x) => lemma_le_bytes_of_len(x as nat, 2),
        CValue::SInt16(x) => lemma_le_bytes_of_len(to_unsigned(x as int, 2), 2),
        CValue::UInt32(x) => lemma_le_bytes_of_len(x as nat, 4),
        CValue::SInt32(x) => lemma_le_bytes_of_len(to_unsigned(x as int, 4), 4),
        CValue::UInt64(x) => lemma_le_bytes_of_len(x as nat, 8),
        CValue::SInt64(x) => lemma_le_bytes_of_len(to_unsigned(x as int, 8), 8),
        CValue::Pointer(p) => lemma_le_bytes_of_len(p as nat, 8),
        CValue::Raw(_) => {},
    }
}

} // verus!
