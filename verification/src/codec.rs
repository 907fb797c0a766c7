//! A deterministic, structured byte encoding for every type of the core:
//! enum tag bytes followed by the fields in declaration order, integers in
//! little-endian form, lists with a leading count. Two equal values encode to
//! identical bytes, and decoding an encoding yields the value back; the
//! round-trip lemmas state that for each type.
use vstd::prelude::*;
use vstd::bytes::lemma_auto_spec_u32_to_from_le_bytes;
use vstd::bytes::lemma_auto_spec_u64_to_from_le_bytes;
use vstd::bytes::spec_u32_from_le_bytes;
use vstd::bytes::spec_u32_to_le_bytes;
use vstd::bytes::spec_u64_from_le_bytes;
use vstd::bytes::spec_u64_to_le_bytes;
use vstd::bytes::u32_from_le_bytes;
use vstd::bytes::u32_to_le_bytes;
use vstd::bytes::u64_from_le_bytes;
use vstd::bytes::u64_to_le_bytes;
use vstd::slice::slice_index_get;
use vstd::slice::slice_subrange;
use vstd::string::StrSliceExecFns;
use vstd::utf8::char_is_scalar;
use vstd::utf8::char_u32_cast;
use vstd::utf8::is_scalar;
use crate::address::MemoryAddress;
use crate::bit_size::BitSize;
use crate::bit_size::IntegerBitSize;
use crate::heap::HeapArray;
use crate::heap::HeapValueType;
use crate::heap::HeapValueTypeView;
use crate::heap::HeapVector;
use crate::heap::ValueOrArray;
use crate::heap::hvt_view;
use crate::heap::lemma_shapes_of;
use crate::heap::shapes_of;
use crate::field::FieldElement;
use crate::opcode::BinaryFieldOp;
use crate::opcode::BinaryIntOp;
use crate::opcode::BlackBoxOp;
use crate::opcode::BrilligOpcode;
use crate::opcode::BrilligOpcodeView;

verus! {

broadcast use vstd::std_specs::vec::group_vec_axioms;

// ---------------------------------------------------------------------------
// Primitive pieces: one byte, little-endian integers, machine-sized counts.
// ---------------------------------------------------------------------------

/// A single byte.
pub open spec fn enc_u8(b: u8) -> Seq<u8> {
    seq![b]
}

pub open spec fn dec_u8(s: Seq<u8>, pos: int) -> Option<(u8, int)> {
    if 0 <= pos && pos + 1 <= s.len() {
        Some((s[pos], pos + 1))
    } else {
        None
    }
}

pub open spec fn dec_u32(s: Seq<u8>, pos: int) -> Option<(u32, int)> {
    if 0 <= pos && pos + 4 <= s.len() {
        Some((spec_u32_from_le_bytes(s.subrange(pos, pos + 4)), pos + 4))
    } else {
        None
    }
}

pub open spec fn dec_u64(s: Seq<u8>, pos: int) -> Option<(u64, int)> {
    if 0 <= pos && pos + 8 <= s.len() {
        Some((spec_u64_from_le_bytes(s.subrange(pos, pos + 8)), pos + 8))
    } else {
        None
    }
}

/// A machine-sized number, carried as 64 bits so that the encoding does not
/// depend on the machine.
pub open spec fn enc_usize(v: usize) -> Seq<u8> {
    spec_u64_to_le_bytes(v as u64)
}

pub open spec fn dec_usize(s: Seq<u8>, pos: int) -> Option<(usize, int)> {
    match dec_u64(s, pos) {
        Some(r) => if r.0 <= usize::MAX as u64 {
            Some((r.0 as usize, r.1))
        } else {
            None
        },
        None => None,
    }
}

fn write_u8(out: &mut Vec<u8>, b: u8)
    ensures
        final(out)@ == old(out)@ + enc_u8(b),
{
    out.push(b);
    proof {
        assert(out@ =~= old(out)@ + enc_u8(b));
    }
}

fn write_u32(out: &mut Vec<u8>, v: u32)
    ensures
        final(out)@ == old(out)@ + spec_u32_to_le_bytes(v),
{
    let mut b = u32_to_le_bytes(v);
    out.append(&mut b);
}

fn write_u64(out: &mut Vec<u8>, v: u64)
    ensures
        final(out)@ == old(out)@ + spec_u64_to_le_bytes(v),
{
    let mut b = u64_to_le_bytes(v);
    out.append(&mut b);
}

fn write_usize(out: &mut Vec<u8>, v: usize)
    ensures
        final(out)@ == old(out)@ + enc_usize(v),
{
    write_u64(out, v as u64);
}

fn read_u8(data: &[u8], pos: usize) -> (r: Option<(u8, usize)>)
    ensures
        match r {
            Some(p) => dec_u8(data@, pos as int) == Some((p.0, p.1 as int)),
            None => dec_u8(data@, pos as int) is None,
        },
{
    if pos < data.len() {
        Some((*slice_index_get(data, pos), pos + 1))
    } else {
        None
    }
}

fn read_u32(data: &[u8], pos: usize) -> (r: Option<(u32, usize)>)
    ensures
        match r {
            Some(p) => dec_u32(data@, pos as int) == Some((p.0, p.1 as int)),
            None => dec_u32(data@, pos as int) is None,
        },
{
    if pos <= data.len() && data.len() - pos >= 4 {
        let v = u32_from_le_bytes(slice_subrange(data, pos, pos + 4));
        Some((v, pos + 4))
    } else {
        None
    }
}

fn read_u64(data: &[u8], pos: usize) -> (r: Option<(u64, usize)>)
    ensures
        match r {
            Some(p) => dec_u64(data@, pos as int) == Some((p.0, p.1 as int)),
            None => dec_u64(data@, pos as int) is None,
        },
{
    if pos <= data.len() && data.len() - pos >= 8 {
        let v = u64_from_le_bytes(slice_subrange(data, pos, pos + 8));
        Some((v, pos + 8))
    } else {
        None
    }
}

fn read_usize(data: &[u8], pos: usize) -> (r: Option<(usize, usize)>)
    ensures
        match r {
            Some(p) => dec_usize(data@, pos as int) == Some((p.0, p.1 as int)),
            None => dec_usize(data@, pos as int) is None,
        },
{
    match read_u64(data, pos) {
        Some((v, p)) => if v <= usize::MAX as u64 {
            Some((v as usize, p))
        } else {
            None
        },
        None => None,
    }
}

// ---------------------------------------------------------------------------
// Splitting a region that holds two encodings in a row.
// ---------------------------------------------------------------------------

/// Bytes that hold `a + b` hold `a` and then `b`.
pub proof fn lemma_split(s: Seq<u8>, pos: int, a: Seq<u8>, b: Seq<u8>)
    requires
        0 <= pos,
        pos + a.len() + b.len() <= s.len(),
        s.subrange(pos, pos + a.len() + b.len()) == a + b,
    ensures
        s.subrange(pos, pos + a.len() as int) == a,
        s.subrange(pos + a.len(), pos + a.len() + b.len()) == b,
{
    let n = a.len() as int;
    let m = b.len() as int;
    assert forall|i: int| 0 <= i < n implies s.subrange(pos, pos + n)[i] == a[i] by {
        assert(s.subrange(pos, pos + n + m)[i] == (a + b)[i]);
    }
    assert(s.subrange(pos, pos + n) =~= a);
    assert forall|i: int| 0 <= i < m implies s.subrange(pos + n, pos + n + m)[i] == b[i] by {
        assert(s.subrange(pos, pos + n + m)[n + i] == (a + b)[n + i]);
    }
    assert(s.subrange(pos + n, pos + n + m) =~= b);
}

pub proof fn lemma_dec_u8(s: Seq<u8>, pos: int, b: u8)
    requires
        0 <= pos,
        pos + 1 <= s.len(),
        s.subrange(pos, pos + 1) == enc_u8(b),
    ensures
        dec_u8(s, pos) == Some((b, pos + 1)),
{
    assert(s[pos] == s.subrange(pos, pos + 1)[0]);
}

pub proof fn lemma_dec_u32(s: Seq<u8>, pos: int, v: u32)
    requires
        0 <= pos,
        pos + spec_u32_to_le_bytes(v).len() <= s.len(),
        s.subrange(pos, pos + spec_u32_to_le_bytes(v).len() as int) == spec_u32_to_le_bytes(v),
    ensures
        dec_u32(s, pos) == Some((v, pos + 4)),
{
    lemma_auto_spec_u32_to_from_le_bytes();
}

pub proof fn lemma_dec_u64(s: Seq<u8>, pos: int, v: u64)
    requires
        0 <= pos,
        pos + spec_u64_to_le_bytes(v).len() <= s.len(),
        s.subrange(pos, pos + spec_u64_to_le_bytes(v).len() as int) == spec_u64_to_le_bytes(v),
    ensures
        dec_u64(s, pos) == Some((v, pos + 8)),
{
    lemma_auto_spec_u64_to_from_le_bytes();
}

pub proof fn lemma_dec_usize(s: Seq<u8>, pos: int, v: usize)
    requires
        0 <= pos,
        pos + enc_usize(v).len() <= s.len(),
        s.subrange(pos, pos + enc_usize(v).len() as int) == enc_usize(v),
    ensures
        dec_usize(s, pos) == Some((v, pos + 8)),
{
    lemma_dec_u64(s, pos, v as u64);
}

// ---------------------------------------------------------------------------
// Memory addresses: a tag byte, then the payload.
// ---------------------------------------------------------------------------

pub open spec fn enc_addr(a: MemoryAddress) -> Seq<u8> {
    match a {
        MemoryAddress::Direct(x) => enc_u8(0) + enc_usize(x),
        MemoryAddress::Relative(x) => enc_u8(1) + enc_usize(x),
    }
}

pub open spec fn dec_addr(s: Seq<u8>, pos: int) -> Option<(MemoryAddress, int)> {
    match dec_u8(s, pos) {
        Some(t) => if t.0 == 0 {
            match dec_usize(s, t.1) {
                Some(r) => Some((MemoryAddress::Direct(r.0), r.1)),
                None => None,
            }
        } else if t.0 == 1 {
            match dec_usize(s, t.1) {
                Some(r) => Some((MemoryAddress::Relative(r.0), r.1)),
                None => None,
            }
        } else {
            None
        },
        None => None,
    }
}

/// Decoding the encoding of an address yields the address back.
pub proof fn lemma_dec_addr(s: Seq<u8>, pos: int, a: MemoryAddress)
    requires
        0 <= pos,
        pos + enc_addr(a).len() <= s.len(),
        s.subrange(pos, pos + enc_addr(a).len() as int) == enc_addr(a),
    ensures
        dec_addr(s, pos) == Some((a, pos + enc_addr(a).len() as int)),
{
    lemma_auto_spec_u64_to_from_le_bytes();
    match a {
        MemoryAddress::Direct(x) => {
            lemma_split(s, pos, enc_u8(0), enc_usize(x));
            lemma_dec_u8(s, pos, 0);
            lemma_dec_usize(s, pos + 1, x);
        },
        MemoryAddress::Relative(x) => {
            lemma_split(s, pos, enc_u8(1), enc_usize(x));
            lemma_dec_u8(s, pos, 1);
            lemma_dec_usize(s, pos + 1, x);
        },
    }
}

impl MemoryAddress {
    pub fn encode(&self, out: &mut Vec<u8>)
        ensures
            final(out)@ == old(out)@ + enc_addr(*self),
    {
        match self {
            MemoryAddress::Direct(x) => {
                write_u8(out, 0);
                write_usize(out, *x);
            },
            MemoryAddress::Relative(x) => {
                write_u8(out, 1);
                write_usize(out, *x);
            },
        }
        proof {
            assert(out@ =~= old(out)@ + enc_addr(*self));
        }
    }

    pub fn decode(data: &[u8], pos: usize) -> (r: Option<(Self, usize)>)
        ensures
            match r {
                Some(p) => dec_addr(data@, pos as int) == Some((p.0, p.1 as int)),
                None => dec_addr(data@, pos as int) is None,
            },
    {
        match read_u8(data, pos) {
            Some((tag, p1)) => {
                if tag == 0 {
                    match read_usize(data, p1) {
                        Some((x, p2)) => Some((MemoryAddress::Direct(x), p2)),
                        None => None,
                    }
                } else if tag == 1 {
                    match read_usize(data, p1) {
                        Some((x, p2)) => Some((MemoryAddress::Relative(x), p2)),
                        None => None,
                    }
                } else {
                    None
                }
            },
            None => None,
        }
    }
}

// ---------------------------------------------------------------------------
// Bit widths: a tag byte each.
// ---------------------------------------------------------------------------

pub open spec fn int_size_tag(b: IntegerBitSize) -> u8 {
    match b {
        IntegerBitSize::U1 => 0,
        IntegerBitSize::U8 => 1,
        IntegerBitSize::U16 => 2,
        IntegerBitSize::U32 => 3,
        IntegerBitSize::U64 => 4,
        IntegerBitSize::U128 => 5,
    }
}

pub open spec fn int_size_of_tag(t: u8) -> Option<IntegerBitSize> {
    if t == 0 {
        Some(IntegerBitSize::U1)
    } else if t == 1 {
        Some(IntegerBitSize::U8)
    } else if t == 2 {
        Some(IntegerBitSize::U16)
    } else if t == 3 {
        Some(IntegerBitSize::U32)
    } else if t == 4 {
        Some(IntegerBitSize::U64)
    } else if t == 5 {
        Some(IntegerBitSize::U128)
    } else {
        None
    }
}

pub open spec fn enc_int_size(b: IntegerBitSize) -> Seq<u8> {
    enc_u8(int_size_tag(b))
}

pub open spec fn dec_int_size(s: Seq<u8>, pos: int) -> Option<(IntegerBitSize, int)> {
    match dec_u8(s, pos) {
        Some(t) => match int_size_of_tag(t.0) {
            Some(b) => Some((b, t.1)),
            None => None,
        },
        None => None,
    }
}

/// Decoding the encoding of an integer width yields the width back.
pub proof fn lemma_dec_int_size(s: Seq<u8>, pos: int, b: IntegerBitSize)
    requires
        0 <= pos,
        pos + enc_int_size(b).len() <= s.len(),
        s.subrange(pos, pos + enc_int_size(b).len() as int) == enc_int_size(b),
    ensures
        dec_int_size(s, pos) == Some((b, pos + 1)),
{
    lemma_dec_u8(s, pos, int_size_tag(b));
}

impl IntegerBitSize {
    pub fn encode(&self, out: &mut Vec<u8>)
        ensures
            final(out)@ == old(out)@ + enc_int_size(*self),
    {
        match self {
            IntegerBitSize::U1 => write_u8(out, 0),
            IntegerBitSize::U8 => write_u8(out, 1),
            IntegerBitSize::U16 => write_u8(out, 2),
            IntegerBitSize::U32 => write_u8(out, 3),
            IntegerBitSize::U64 => write_u8(out, 4),
            IntegerBitSize::U128 => write_u8(out, 5),
        }
    }

    pub fn decode(data: &[u8], pos: usize) -> (r: Option<(Self, usize)>)
        ensures
            match r {
                Some(p) => dec_int_size(data@, pos as int) == Some((p.0, p.1 as int)),
                None => dec_int_size(data@, pos as int) is None,
            },
    {
        match read_u8(data, pos) {
            Some((tag, p1)) => {
                if tag == 0 {
                    Some((IntegerBitSize::U1, p1))
                } else if tag == 1 {
                    Some((IntegerBitSize::U8, p1))
                } else if tag == 2 {
                    Some((IntegerBitSize::U16, p1))
                } else if tag == 3 {
                    Some((IntegerBitSize::U32, p1))
                } else if tag == 4 {
                    Some((IntegerBitSize::U64, p1))
                } else if tag == 5 {
                    Some((IntegerBitSize::U128, p1))
                } else {
                    None
                }
            },
            None => None,
        }
    }
}

pub open spec fn enc_bit_size(b: BitSize) -> Seq<u8> {
    match b {
        BitSize::Field => enc_u8(0),
        BitSize::Integer(w) => enc_u8(1) + enc_int_size(w),
    }
}

pub open spec fn dec_bit_size(s: Seq<u8>, pos: int) -> Option<(BitSize, int)> {
    match dec_u8(s, pos) {
        Some(t) => if t.0 == 0 {
            Some((BitSize::Field, t.1))
        } else if t.0 == 1 {
            match dec_int_size(s, t.1) {
                Some(r) => Some((BitSize::Integer(r.0), r.1)),
                None => None,
            }
        } else {
            None
        },
        None => None,
    }
}

/// Decoding the encoding of a bit size yields the bit size back.
pub proof fn lemma_dec_bit_size(s: Seq<u8>, pos: int, b: BitSize)
    requires
        0 <= pos,
        pos + enc_bit_size(b).len() <= s.len(),
        s.subrange(pos, pos + enc_bit_size(b).len() as int) == enc_bit_size(b),
    ensures
        dec_bit_size(s, pos) == Some((b, pos + enc_bit_size(b).len() as int)),
{
    match b {
        BitSize::Field => {
            lemma_dec_u8(s, pos, 0);
        },
        BitSize::Integer(w) => {
            lemma_split(s, pos, enc_u8(1), enc_int_size(w));
            lemma_dec_u8(s, pos, 1);
            lemma_dec_int_size(s, pos + 1, w);
        },
    }
}

impl BitSize {
    pub fn encode(&self, out: &mut Vec<u8>)
        ensures
            final(out)@ == old(out)@ + enc_bit_size(*self),
    {
        match self {
            BitSize::Field => write_u8(out, 0),
            BitSize::Integer(w) => {
                write_u8(out, 1);
                w.encode(out);
                proof {
                    assert(out@ =~= old(out)@ + enc_bit_size(*self));
                }
            },
        }
    }

    pub fn decode(data: &[u8], pos: usize) -> (r: Option<(Self, usize)>)
        ensures
            match r {
                Some(p) => dec_bit_size(data@, pos as int) == Some((p.0, p.1 as int)),
                None => dec_bit_size(data@, pos as int) is None,
            },
    {
        match read_u8(data, pos) {
            Some((tag, p1)) => {
                if tag == 0 {
                    Some((BitSize::Field, p1))
                } else if tag == 1 {
                    match IntegerBitSize::decode(data, p1) {
                        Some((w, p2)) => Some((BitSize::Integer(w), p2)),
                        None => None,
                    }
                } else {
                    None
                }
            },
            None => None,
        }
    }
}

// ---------------------------------------------------------------------------
// Operator catalogs and black-box identifiers.
// ---------------------------------------------------------------------------

pub open spec fn field_op_tag(op: BinaryFieldOp) -> u8 {
    match op {
        BinaryFieldOp::Add => 0,
        BinaryFieldOp::Sub => 1,
        BinaryFieldOp::Mul => 2,
        BinaryFieldOp::Div => 3,
        BinaryFieldOp::IntegerDiv => 4,
        BinaryFieldOp::Equals => 5,
        BinaryFieldOp::LessThan => 6,
        BinaryFieldOp::LessThanEquals => 7,
    }
}

pub open spec fn field_op_of_tag(t: u8) -> Option<BinaryFieldOp> {
    if t == 0 {
        Some(BinaryFieldOp::Add)
    } else if t == 1 {
        Some(BinaryFieldOp::Sub)
    } else if t == 2 {
        Some(BinaryFieldOp::Mul)
    } else if t == 3 {
        Some(BinaryFieldOp::Div)
    } else if t == 4 {
        Some(BinaryFieldOp::IntegerDiv)
    } else if t == 5 {
        Some(BinaryFieldOp::Equals)
    } else if t == 6 {
        Some(BinaryFieldOp::LessThan)
    } else if t == 7 {
        Some(BinaryFieldOp::LessThanEquals)
    } else {
        None
    }
}

pub open spec fn enc_field_op(op: BinaryFieldOp) -> Seq<u8> {
    enc_u8(field_op_tag(op))
}

pub open spec fn dec_field_op(s: Seq<u8>, pos: int) -> Option<(BinaryFieldOp, int)> {
    match dec_u8(s, pos) {
        Some(t) => match field_op_of_tag(t.0) {
            Some(op) => Some((op, t.1)),
            None => None,
        },
        None => None,
    }
}

/// Decoding the encoding of a field operator yields the operator back.
pub proof fn lemma_dec_field_op(s: Seq<u8>, pos: int, op: BinaryFieldOp)
    requires
        0 <= pos,
        pos + enc_field_op(op).len() <= s.len(),
        s.subrange(pos, pos + enc_field_op(op).len() as int) == enc_field_op(op),
    ensures
        dec_field_op(s, pos) == Some((op, pos + 1)),
{
    lemma_dec_u8(s, pos, field_op_tag(op));
}

impl BinaryFieldOp {
    pub fn encode(&self, out: &mut Vec<u8>)
        ensures
            final(out)@ == old(out)@ + enc_field_op(*self),
    {
        match self {
            BinaryFieldOp::Add => write_u8(out, 0),
            BinaryFieldOp::Sub => write_u8(out, 1),
            BinaryFieldOp::Mul => write_u8(out, 2),
            BinaryFieldOp::Div => write_u8(out, 3),
            BinaryFieldOp::IntegerDiv => write_u8(out, 4),
            BinaryFieldOp::Equals => write_u8(out, 5),
            BinaryFieldOp::LessThan => write_u8(out, 6),
            BinaryFieldOp::LessThanEquals => write_u8(out, 7),
        }
    }

    pub fn decode(data: &[u8], pos: usize) -> (r: Option<(Self, usize)>)
        ensures
            match r {
                Some(p) => dec_field_op(data@, pos as int) == Some((p.0, p.1 as int)),
                None => dec_field_op(data@, pos as int) is None,
            },
    {
        match read_u8(data, pos) {
            Some((tag, p1)) => {
                if tag == 0 {
                    Some((BinaryFieldOp::Add, p1))
                } else if tag == 1 {
                    Some((BinaryFieldOp::Sub, p1))
                } else if tag == 2 {
                    Some((BinaryFieldOp::Mul, p1))
                } else if tag == 3 {
                    Some((BinaryFieldOp::Div, p1))
                } else if tag == 4 {
                    Some((BinaryFieldOp::IntegerDiv, p1))
                } else if tag == 5 {
                    Some((BinaryFieldOp::Equals, p1))
                } else if tag == 6 {
                    Some((BinaryFieldOp::LessThan, p1))
                } else if tag == 7 {
                    Some((BinaryFieldOp::LessThanEquals, p1))
                } else {
                    None
                }
            },
            None => None,
        }
    }
}

pub open spec fn int_op_tag(op: BinaryIntOp) -> u8 {
    match op {
        BinaryIntOp::Add => 0,
        BinaryIntOp::Sub => 1,
        BinaryIntOp::Mul => 2,
        BinaryIntOp::Div => 3,
        BinaryIntOp::Equals => 4,
        BinaryIntOp::LessThan => 5,
        BinaryIntOp::LessThanEquals => 6,
        BinaryIntOp::And => 7,
        BinaryIntOp::Or => 8,
        BinaryIntOp::Xor => 9,
        BinaryIntOp::Shl => 10,
        BinaryIntOp::Shr => 11,
    }
}

pub open spec fn int_op_of_tag(t: u8) -> Option<BinaryIntOp> {
    if t == 0 {
        Some(BinaryIntOp::Add)
    } else if t == 1 {
        Some(BinaryIntOp::Sub)
    } else if t == 2 {
        Some(BinaryIntOp::Mul)
    } else if t == 3 {
        Some(BinaryIntOp::Div)
    } else if t == 4 {
        Some(BinaryIntOp::Equals)
    } else if t == 5 {
        Some(BinaryIntOp::LessThan)
    } else if t == 6 {
        Some(BinaryIntOp::LessThanEquals)
    } else if t == 7 {
        Some(BinaryIntOp::And)
    } else if t == 8 {
        Some(BinaryIntOp::Or)
    } else if t == 9 {
        Some(BinaryIntOp::Xor)
    } else if t == 10 {
        Some(BinaryIntOp::Shl)
    } else if t == 11 {
        Some(BinaryIntOp::Shr)
    } else {
        None
    }
}

pub open spec fn enc_int_op(op: BinaryIntOp) -> Seq<u8> {
    enc_u8(int_op_tag(op))
}

pub open spec fn dec_int_op(s: Seq<u8>, pos: int) -> Option<(BinaryIntOp, int)> {
    match dec_u8(s, pos) {
        Some(t) => match int_op_of_tag(t.0) {
            Some(op) => Some((op, t.1)),
            None => None,
        },
        None => None,
    }
}

/// Decoding the encoding of an integer operator yields the operator back.
pub proof fn lemma_dec_int_op(s: Seq<u8>, pos: int, op: BinaryIntOp)
    requires
        0 <= pos,
        pos + enc_int_op(op).len() <= s.len(),
        s.subrange(pos, pos + enc_int_op(op).len() as int) == enc_int_op(op),
    ensures
        dec_int_op(s, pos) == Some((op, pos + 1)),
{
    lemma_dec_u8(s, pos, int_op_tag(op));
}

impl BinaryIntOp {
    pub fn encode(&self, out: &mut Vec<u8>)
        ensures
            final(out)@ == old(out)@ + enc_int_op(*self),
    {
        match self {
            BinaryIntOp::Add => write_u8(out, 0),
            BinaryIntOp::Sub => write_u8(out, 1),
            BinaryIntOp::Mul => write_u8(out, 2),
            BinaryIntOp::Div => write_u8(out, 3),
            BinaryIntOp::Equals => write_u8(out, 4),
            BinaryIntOp::LessThan => write_u8(out, 5),
            BinaryIntOp::LessThanEquals => write_u8(out, 6),
            BinaryIntOp::And => write_u8(out, 7),
            BinaryIntOp::Or => write_u8(out, 8),
            BinaryIntOp::Xor => write_u8(out, 9),
            BinaryIntOp::Shl => write_u8(out, 10),
            BinaryIntOp::Shr => write_u8(out, 11),
        }
    }

    pub fn decode(data: &[u8], pos: usize) -> (r: Option<(Self, usize)>)
        ensures
            match r {
                Some(p) => dec_int_op(data@, pos as int) == Some((p.0, p.1 as int)),
                None => dec_int_op(data@, pos as int) is None,
            },
    {
        match read_u8(data, pos) {
            Some((tag, p1)) => {
                if tag == 0 {
                    Some((BinaryIntOp::Add, p1))
                } else if tag == 1 {
                    Some((BinaryIntOp::Sub, p1))
                } else if tag == 2 {
                    Some((BinaryIntOp::Mul, p1))
                } else if tag == 3 {
                    Some((BinaryIntOp::Div, p1))
                } else if tag == 4 {
                    Some((BinaryIntOp::Equals, p1))
                } else if tag == 5 {
                    Some((BinaryIntOp::LessThan, p1))
                } else if tag == 6 {
                    Some((BinaryIntOp::LessThanEquals, p1))
                } else if tag == 7 {
                    Some((BinaryIntOp::And, p1))
                } else if tag == 8 {
                    Some((BinaryIntOp::Or, p1))
                } else if tag == 9 {
                    Some((BinaryIntOp::Xor, p1))
                } else if tag == 10 {
                    Some((BinaryIntOp::Shl, p1))
                } else if tag == 11 {
                    Some((BinaryIntOp::Shr, p1))
                } else {
                    None
                }
            },
            None => None,
        }
    }
}

pub open spec fn enc_black_box(op: BlackBoxOp) -> Seq<u8> {
    spec_u32_to_le_bytes(op.id)
}

pub open spec fn dec_black_box(s: Seq<u8>, pos: int) -> Option<(BlackBoxOp, int)> {
    match dec_u32(s, pos) {
        Some(r) => Some((BlackBoxOp { id: r.0 }, r.1)),
        None => None,
    }
}

/// Decoding the encoding of a black-box identifier yields it back.
pub proof fn lemma_dec_black_box(s: Seq<u8>, pos: int, op: BlackBoxOp)
    requires
        0 <= pos,
        pos + enc_black_box(op).len() <= s.len(),
        s.subrange(pos, pos + enc_black_box(op).len() as int) == enc_black_box(op),
    ensures
        dec_black_box(s, pos) == Some((op, pos + enc_black_box(op).len() as int)),
{
    lemma_auto_spec_u32_to_from_le_bytes();
    lemma_dec_u32(s, pos, op.id);
}

impl BlackBoxOp {
    pub fn encode(&self, out: &mut Vec<u8>)
        ensures
            final(out)@ == old(out)@ + enc_black_box(*self),
    {
        write_u32(out, self.id);
    }

    pub fn decode(data: &[u8], pos: usize) -> (r: Option<(Self, usize)>)
        ensures
            match r {
                Some(p) => dec_black_box(data@, pos as int) == Some((p.0, p.1 as int)),
                None => dec_black_box(data@, pos as int) is None,
            },
    {
        match read_u32(data, pos) {
            Some((id, p1)) => Some((BlackBoxOp { id }, p1)),
            None => None,
        }
    }
}

// ---------------------------------------------------------------------------
// Heap region descriptors.
// ---------------------------------------------------------------------------

pub open spec fn enc_heap_array(a: HeapArray) -> Seq<u8> {
    enc_addr(a.pointer) + enc_usize(a.size)
}

pub open spec fn dec_heap_array(s: Seq<u8>, pos: int) -> Option<(HeapArray, int)> {
    match dec_addr(s, pos) {
        Some(p) => match dec_usize(s, p.1) {
            Some(z) => Some((HeapArray { pointer: p.0, size: z.0 }, z.1)),
            None => None,
        },
        None => None,
    }
}

/// Decoding the encoding of a heap array descriptor yields it back.
pub proof fn lemma_dec_heap_array(s: Seq<u8>, pos: int, a: HeapArray)
    requires
        0 <= pos,
        pos + enc_heap_array(a).len() <= s.len(),
        s.subrange(pos, pos + enc_heap_array(a).len() as int) == enc_heap_array(a),
    ensures
        dec_heap_array(s, pos) == Some((a, pos + enc_heap_array(a).len() as int)),
{
    lemma_auto_spec_u64_to_from_le_bytes();
    lemma_split(s, pos, enc_addr(a.pointer), enc_usize(a.size));
    lemma_dec_addr(s, pos, a.pointer);
    lemma_dec_usize(s, pos + enc_addr(a.pointer).len(), a.size);
}

impl HeapArray {
    pub fn encode(&self, out: &mut Vec<u8>)
        ensures
            final(out)@ == old(out)@ + enc_heap_array(*self),
    {
        self.pointer.encode(out);
        write_usize(out, self.size);
        proof {
            assert(out@ =~= old(out)@ + enc_heap_array(*self));
        }
    }

    pub fn decode(data: &[u8], pos: usize) -> (r: Option<(Self, usize)>)
        ensures
            match r {
                Some(p) => dec_heap_array(data@, pos as int) == Some((p.0, p.1 as int)),
                None => dec_heap_array(data@, pos as int) is None,
            },
    {
        match MemoryAddress::decode(data, pos) {
            Some((pointer, p1)) => match read_usize(data, p1) {
                Some((size, p2)) => Some((HeapArray { pointer, size }, p2)),
                None => None,
            },
            None => None,
        }
    }
}

pub open spec fn enc_heap_vector(v: HeapVector) -> Seq<u8> {
    enc_addr(v.pointer) + enc_addr(v.size)
}

pub open spec fn dec_heap_vector(s: Seq<u8>, pos: int) -> Option<(HeapVector, int)> {
    match dec_addr(s, pos) {
        Some(p) => match dec_addr(s, p.1) {
            Some(z) => Some((HeapVector { pointer: p.0, size: z.0 }, z.1)),
            None => None,
        },
        None => None,
    }
}

/// Decoding the encoding of a heap vector descriptor yields it back.
pub proof fn lemma_dec_heap_vector(s: Seq<u8>, pos: int, v: HeapVector)
    requires
        0 <= pos,
        pos + enc_heap_vector(v).len() <= s.len(),
        s.subrange(pos, pos + enc_heap_vector(v).len() as int) == enc_heap_vector(v),
    ensures
        dec_heap_vector(s, pos) == Some((v, pos + enc_heap_vector(v).len() as int)),
{
    lemma_auto_spec_u64_to_from_le_bytes();
    lemma_split(s, pos, enc_addr(v.pointer), enc_addr(v.size));
    lemma_dec_addr(s, pos, v.pointer);
    lemma_dec_addr(s, pos + enc_addr(v.pointer).len(), v.size);
}

impl HeapVector {
    pub fn encode(&self, out: &mut Vec<u8>)
        ensures
            final(out)@ == old(out)@ + enc_heap_vector(*self),
    {
        self.pointer.encode(out);
        self.size.encode(out);
        proof {
            assert(out@ =~= old(out)@ + enc_heap_vector(*self));
        }
    }

    pub fn decode(data: &[u8], pos: usize) -> (r: Option<(Self, usize)>)
        ensures
            match r {
                Some(p) => dec_heap_vector(data@, pos as int) == Some((p.0, p.1 as int)),
                None => dec_heap_vector(data@, pos as int) is None,
            },
    {
        match MemoryAddress::decode(data, pos) {
            Some((pointer, p1)) => match MemoryAddress::decode(data, p1) {
                Some((size, p2)) => Some((HeapVector { pointer, size }, p2)),
                None => None,
            },
            None => None,
        }
    }
}

pub open spec fn enc_value_or_array(v: ValueOrArray) -> Seq<u8> {
    match v {
        ValueOrArray::MemoryAddress(a) => enc_u8(0) + enc_addr(a),
        ValueOrArray::HeapArray(a) => enc_u8(1) + enc_heap_array(a),
        ValueOrArray::HeapVector(h) => enc_u8(2) + enc_heap_vector(h),
    }
}

pub open spec fn dec_value_or_array(s: Seq<u8>, pos: int) -> Option<(ValueOrArray, int)> {
    match dec_u8(s, pos) {
        Some(t) => if t.0 == 0 {
            match dec_addr(s, t.1) {
                Some(r) => Some((ValueOrArray::MemoryAddress(r.0), r.1)),
                None => None,
            }
        } else if t.0 == 1 {
            match dec_heap_array(s, t.1) {
                Some(r) => Some((ValueOrArray::HeapArray(r.0), r.1)),
                None => None,
            }
        } else if t.0 == 2 {
            match dec_heap_vector(s, t.1) {
                Some(r) => Some((ValueOrArray::HeapVector(r.0), r.1)),
                None => None,
            }
        } else {
            None
        },
        None => None,
    }
}

/// Decoding the encoding of a foreign-call descriptor yields it back.
pub proof fn lemma_dec_value_or_array(s: Seq<u8>, pos: int, v: ValueOrArray)
    requires
        0 <= pos,
        pos + enc_value_or_array(v).len() <= s.len(),
        s.subrange(pos, pos + enc_value_or_array(v).len() as int) == enc_value_or_array(v),
    ensures
        dec_value_or_array(s, pos) == Some((v, pos + enc_value_or_array(v).len() as int)),
{
    match v {
        ValueOrArray::MemoryAddress(a) => {
            lemma_split(s, pos, enc_u8(0), enc_addr(a));
            lemma_dec_u8(s, pos, 0);
            lemma_dec_addr(s, pos + 1, a);
        },
        ValueOrArray::HeapArray(a) => {
            lemma_split(s, pos, enc_u8(1), enc_heap_array(a));
            lemma_dec_u8(s, pos, 1);
            lemma_dec_heap_array(s, pos + 1, a);
        },
        ValueOrArray::HeapVector(h) => {
            lemma_split(s, pos, enc_u8(2), enc_heap_vector(h));
            lemma_dec_u8(s, pos, 2);
            lemma_dec_heap_vector(s, pos + 1, h);
        },
    }
}

impl ValueOrArray {
    pub fn encode(&self, out: &mut Vec<u8>)
        ensures
            final(out)@ == old(out)@ + enc_value_or_array(*self),
    {
        match self {
            ValueOrArray::MemoryAddress(a) => {
                write_u8(out, 0);
                a.encode(out);
            },
            ValueOrArray::HeapArray(a) => {
                write_u8(out, 1);
                a.encode(out);
            },
            ValueOrArray::HeapVector(h) => {
                write_u8(out, 2);
                h.encode(out);
            },
        }
        proof {
            assert(out@ =~= old(out)@ + enc_value_or_array(*self));
        }
    }

    pub fn decode(data: &[u8], pos: usize) -> (r: Option<(Self, usize)>)
        ensures
            match r {
                Some(p) => dec_value_or_array(data@, pos as int) == Some((p.0, p.1 as int)),
                None => dec_value_or_array(data@, pos as int) is None,
            },
    {
        match read_u8(data, pos) {
            Some((tag, p1)) => {
                if tag == 0 {
                    match MemoryAddress::decode(data, p1) {
                        Some((a, p2)) => Some((ValueOrArray::MemoryAddress(a), p2)),
                        None => None,
                    }
                } else if tag == 1 {
                    match HeapArray::decode(data, p1) {
                        Some((a, p2)) => Some((ValueOrArray::HeapArray(a), p2)),
                        None => None,
                    }
                } else if tag == 2 {
                    match HeapVector::decode(data, p1) {
                        Some((h, p2)) => Some((ValueOrArray::HeapVector(h), p2)),
                        None => None,
                    }
                } else {
                    None
                }
            },
            None => None,
        }
    }
}

// ---------------------------------------------------------------------------
// Characters and strings: a leading count, then one 32-bit scalar per
// character.
// ---------------------------------------------------------------------------

pub open spec fn enc_char(c: char) -> Seq<u8> {
    spec_u32_to_le_bytes(c as u32)
}

pub open spec fn dec_char(s: Seq<u8>, pos: int) -> Option<(char, int)> {
    match dec_u32(s, pos) {
        Some(r) => if is_scalar(r.0) {
            Some((r.0 as char, r.1))
        } else {
            None
        },
        None => None,
    }
}

pub open spec fn enc_char_seq(cs: Seq<char>) -> Seq<u8>
    decreases cs.len(),
{
    if cs.len() == 0 {
        Seq::empty()
    } else {
        enc_char(cs[0]) + enc_char_seq(cs.drop_first())
    }
}

pub open spec fn dec_char_seq(s: Seq<u8>, pos: int, n: int, acc: Seq<char>) -> Option<
    (Seq<char>, int),
>
    decreases n,
{
    if n <= 0 {
        Some((acc, pos))
    } else {
        match dec_char(s, pos) {
            Some(r) => dec_char_seq(s, r.1, n - 1, acc.push(r.0)),
            None => None,
        }
    }
}

pub open spec fn enc_string(cs: Seq<char>) -> Seq<u8> {
    spec_u64_to_le_bytes(cs.len() as u64) + enc_char_seq(cs)
}

pub open spec fn dec_string(s: Seq<u8>, pos: int) -> Option<(Seq<char>, int)> {
    match dec_u64(s, pos) {
        Some(t) => if t.0 <= usize::MAX as u64 {
            dec_char_seq(s, t.1, t.0 as int, Seq::empty())
        } else {
            None
        },
        None => None,
    }
}

pub proof fn lemma_enc_char_seq_len(cs: Seq<char>)
    ensures
        enc_char_seq(cs).len() == 4 * cs.len(),
    decreases cs.len(),
{
    lemma_auto_spec_u32_to_from_le_bytes();
    if cs.len() > 0 {
        lemma_enc_char_seq_len(cs.drop_first());
    }
}

/// Decoding the encoding of a character yields the character back.
pub proof fn lemma_dec_char(s: Seq<u8>, pos: int, c: char)
    requires
        0 <= pos,
        pos + enc_char(c).len() <= s.len(),
        s.subrange(pos, pos + enc_char(c).len() as int) == enc_char(c),
    ensures
        dec_char(s, pos) == Some((c, pos + 4)),
{
    lemma_auto_spec_u32_to_from_le_bytes();
    lemma_dec_u32(s, pos, c as u32);
    char_is_scalar(c);
    char_u32_cast(c, c as u32);
}

/// Decoding the encodings of characters in a row appends them to the
/// accumulator.
pub proof fn lemma_dec_char_seq(cs: Seq<char>, acc: Seq<char>, s: Seq<u8>, pos: int)
    requires
        0 <= pos,
        pos + enc_char_seq(cs).len() <= s.len(),
        s.subrange(pos, pos + enc_char_seq(cs).len() as int) == enc_char_seq(cs),
    ensures
        dec_char_seq(s, pos, cs.len() as int, acc) == Some(
            (acc + cs, pos + enc_char_seq(cs).len() as int),
        ),
    decreases cs.len(),
{
    lemma_auto_spec_u32_to_from_le_bytes();
    if cs.len() == 0 {
        assert(acc + cs =~= acc);
    } else {
        let rest = cs.drop_first();
        lemma_enc_char_seq_len(cs);
        lemma_enc_char_seq_len(rest);
        lemma_split(s, pos, enc_char(cs[0]), enc_char_seq(rest));
        lemma_dec_char(s, pos, cs[0]);
        lemma_dec_char_seq(rest, acc.push(cs[0]), s, pos + 4);
        assert(acc.push(cs[0]) + rest =~= acc + cs);
    }
}

/// Decoding the encoding of a string yields its characters back.
pub proof fn lemma_dec_string(cs: Seq<char>, s: Seq<u8>, pos: int)
    requires
        cs.len() <= usize::MAX,
        0 <= pos,
        pos + enc_string(cs).len() <= s.len(),
        s.subrange(pos, pos + enc_string(cs).len() as int) == enc_string(cs),
    ensures
        dec_string(s, pos) == Some((cs, pos + enc_string(cs).len() as int)),
{
    lemma_auto_spec_u64_to_from_le_bytes();
    lemma_split(s, pos, spec_u64_to_le_bytes(cs.len() as u64), enc_char_seq(cs));
    lemma_dec_u64(s, pos, cs.len() as u64);
    lemma_dec_char_seq(cs, Seq::empty(), s, pos + 8);
    assert(Seq::empty() + cs =~= cs);
}

/// Relies on char::from_u32: it returns Some exactly on a Unicode scalar
/// value, namely the character with that value.
#[verifier::external_body]
fn char_from_u32(v: u32) -> (r: Option<char>)
    ensures
        r is Some <==> is_scalar(v),
        match r {
            Some(c) => c as u32 == v,
            None => true,
        },
{
    char::from_u32(v)
}

/// Relies on String::push: it appends the given character to the end of the
/// string.
#[verifier::external_body]
fn push_char(s: &mut String, c: char)
    ensures
        final(s)@ == old(s)@.push(c),
{
    s.push(c);
}

/// `enc_char_seq` grows one character at a time at its end.
proof fn lemma_enc_char_seq_snoc(cs: Seq<char>, c: char)
    ensures
        enc_char_seq(cs.push(c)) == enc_char_seq(cs) + enc_char(c),
    decreases cs.len(),
{
    reveal_with_fuel(enc_char_seq, 3);
    lemma_auto_spec_u32_to_from_le_bytes();
    assert(cs.push(c)[0] == if cs.len() == 0 {
        c
    } else {
        cs[0]
    });
    if cs.len() == 0 {
        assert(cs.push(c).drop_first() =~= Seq::<char>::empty());
        assert(enc_char_seq(cs.push(c).drop_first()) == enc_char_seq(Seq::<char>::empty()));
        assert(enc_char_seq(cs.push(c)) =~= enc_char_seq(cs) + enc_char(c));
    } else {
        assert(cs.push(c).drop_first() =~= cs.drop_first().push(c));
        lemma_enc_char_seq_snoc(cs.drop_first(), c);
        assert(enc_char_seq(cs.push(c)) =~= enc_char_seq(cs) + enc_char(c));
    }
}

fn write_str(out: &mut Vec<u8>, t: &str)
    ensures
        final(out)@ == old(out)@ + enc_string(t@),
{
    let n = t.unicode_len();
    write_u64(out, n as u64);
    let mut j: usize = 0;
    while j < n
        invariant
            n == t@.len(),
            0 <= j <= n,
            out@ == old(out)@ + spec_u64_to_le_bytes(n as u64) + enc_char_seq(t@.take(j as int)),
        decreases n - j,
    {
        let c = t.get_char(j);
        write_u32(out, c as u32);
        proof {
            assert(t@.take(j + 1) =~= t@.take(j as int).push(t@[j as int]));
            lemma_enc_char_seq_snoc(t@.take(j as int), t@[j as int]);
            assert(out@ =~= old(out)@ + spec_u64_to_le_bytes(n as u64) + enc_char_seq(
                t@.take(j + 1),
            ));
        }
        j = j + 1;
    }
    proof {
        assert(t@.take(n as int) =~= t@);
        assert(out@ =~= old(out)@ + enc_string(t@));
    }
}

fn read_string(data: &[u8], pos: usize) -> (r: Option<(String, usize)>)
    ensures
        match r {
            Some(p) => dec_string(data@, pos as int) == Some((p.0@, p.1 as int)),
            None => dec_string(data@, pos as int) is None,
        },
{
    match read_u64(data, pos) {
        Some((count, p1)) => {
            if count <= usize::MAX as u64 {
                let n = count as usize;
                let mut out = String::new();
                let mut cur: usize = p1;
                let mut remaining: usize = n;
                loop
                    invariant
                        remaining <= n,
                        dec_string(data@, pos as int) == dec_char_seq(
                            data@,
                            cur as int,
                            remaining as int,
                            out@,
                        ),
                    decreases remaining,
                {
                    if remaining == 0 {
                        return Some((out, cur));
                    }
                    match read_u32(data, cur) {
                        Some((v, p2)) => {
                            match char_from_u32(v) {
                                Some(c) => {
                                    proof {
                                        char_u32_cast(c, v);
                                    }
                                    push_char(&mut out, c);
                                    cur = p2;
                                    remaining = remaining - 1;
                                },
                                None => {
                                    return None;
                                },
                            }
                        },
                        None => {
                            return None;
                        },
                    }
                }
            } else {
                None
            }
        },
        None => None,
    }
}

// ---------------------------------------------------------------------------
// Heap shapes: a tag byte; arrays and vectors carry a leading element count,
// the elements, and (for arrays) the fixed size.
// ---------------------------------------------------------------------------

pub open spec fn enc_shape(m: HeapValueTypeView) -> Seq<u8>
    decreases m,
{
    match m {
        HeapValueTypeView::Simple(b) => enc_u8(0) + enc_bit_size(b),
        HeapValueTypeView::Array { value_types, size } => enc_u8(1) + spec_u64_to_le_bytes(
            value_types.len() as u64,
        ) + enc_shape_seq(value_types) + enc_usize(size),
        HeapValueTypeView::Vector { value_types } => enc_u8(2) + spec_u64_to_le_bytes(
            value_types.len() as u64,
        ) + enc_shape_seq(value_types),
    }
}

pub open spec fn enc_shape_seq(ms: Seq<HeapValueTypeView>) -> Seq<u8>
    decreases ms,
{
    if ms.len() == 0 {
        Seq::empty()
    } else {
        enc_shape(ms[0]) + enc_shape_seq(ms.drop_first())
    }
}

/// The element lists of the shape all fit the machine's count type, so that
/// the leading counts read back exactly.
pub open spec fn shape_wf(m: HeapValueTypeView) -> bool
    decreases m,
{
    match m {
        HeapValueTypeView::Simple(_) => true,
        HeapValueTypeView::Array { value_types, .. } => value_types.len() <= usize::MAX
            && shape_seq_wf(value_types),
        HeapValueTypeView::Vector { value_types } => value_types.len() <= usize::MAX
            && shape_seq_wf(value_types),
    }
}

pub open spec fn shape_seq_wf(ms: Seq<HeapValueTypeView>) -> bool
    decreases ms,
{
    if ms.len() == 0 {
        true
    } else {
        shape_wf(ms[0]) && shape_seq_wf(ms.drop_first())
    }
}

pub open spec fn dec_shape(s: Seq<u8>, pos: int) -> Option<(HeapValueTypeView, int)>
    decreases s.len() - pos, 0int,
{
    match dec_u8(s, pos) {
        Some(t) => if t.0 == 0 {
            match dec_bit_size(s, t.1) {
                Some(r) => Some((HeapValueTypeView::Simple(r.0), r.1)),
                None => None,
            }
        } else if t.0 == 1 {
            match dec_u64(s, t.1) {
                Some(n) => if n.0 <= usize::MAX as u64 && n.1 > pos && n.1 <= s.len() {
                    match dec_shape_seq(s, n.1, n.0 as int, Seq::empty()) {
                        Some(elems) => match dec_usize(s, elems.1) {
                            Some(z) => Some(
                                (
                                    HeapValueTypeView::Array { value_types: elems.0, size: z.0 },
                                    z.1,
                                ),
                            ),
                            None => None,
                        },
                        None => None,
                    }
                } else {
                    None
                },
                None => None,
            }
        } else if t.0 == 2 {
            match dec_u64(s, t.1) {
                Some(n) => if n.0 <= usize::MAX as u64 && n.1 > pos && n.1 <= s.len() {
                    match dec_shape_seq(s, n.1, n.0 as int, Seq::empty()) {
                        Some(elems) => Some(
                            (HeapValueTypeView::Vector { value_types: elems.0 }, elems.1),
                        ),
                        None => None,
                    }
                } else {
                    None
                },
                None => None,
            }
        } else {
            None
        },
        None => None,
    }
}

pub open spec fn dec_shape_seq(
    s: Seq<u8>,
    pos: int,
    n: int,
    acc: Seq<HeapValueTypeView>,
) -> Option<(Seq<HeapValueTypeView>, int)>
    decreases s.len() - pos, n,
{
    if n <= 0 {
        Some((acc, pos))
    } else {
        match dec_shape(s, pos) {
            Some(r) => if r.1 > pos && r.1 <= s.len() {
                dec_shape_seq(s, r.1, n - 1, acc.push(r.0))
            } else {
                None
            },
            None => None,
        }
    }
}

/// Every shape encoding starts with its tag byte and so is never empty.
pub proof fn lemma_enc_shape_len(m: HeapValueTypeView)
    ensures
        enc_shape(m).len() >= 1,
{
}

/// Decoding the encoding of a shape yields the shape back.
pub proof fn lemma_dec_shape(m: HeapValueTypeView, s: Seq<u8>, pos: int)
    requires
        shape_wf(m),
        0 <= pos,
        pos + enc_shape(m).len() <= s.len(),
        s.subrange(pos, pos + enc_shape(m).len() as int) == enc_shape(m),
    ensures
        dec_shape(s, pos) == Some((m, pos + enc_shape(m).len() as int)),
    decreases m,
{
    lemma_auto_spec_u64_to_from_le_bytes();
    match m {
        HeapValueTypeView::Simple(b) => {
            lemma_split(s, pos, enc_u8(0), enc_bit_size(b));
            lemma_dec_u8(s, pos, 0);
            lemma_dec_bit_size(s, pos + 1, b);
        },
        HeapValueTypeView::Array { value_types, size } => {
            let count = spec_u64_to_le_bytes(value_types.len() as u64);
            let body = enc_shape_seq(value_types);
            let tail = enc_usize(size);
            lemma_split(s, pos, enc_u8(1) + count + body, tail);
            lemma_split(s, pos, enc_u8(1) + count, body);
            lemma_split(s, pos, enc_u8(1), count);
            lemma_dec_u8(s, pos, 1);
            lemma_dec_u64(s, pos + 1, value_types.len() as u64);
            lemma_dec_shape_seq(value_types, Seq::empty(), s, pos + 9);
            assert(Seq::empty() + value_types =~= value_types);
            lemma_dec_usize(s, pos + 9 + body.len(), size);
        },
        HeapValueTypeView::Vector { value_types } => {
            let count = spec_u64_to_le_bytes(value_types.len() as u64);
            let body = enc_shape_seq(value_types);
            lemma_split(s, pos, enc_u8(2) + count, body);
            lemma_split(s, pos, enc_u8(2), count);
            lemma_dec_u8(s, pos, 2);
            lemma_dec_u64(s, pos + 1, value_types.len() as u64);
            lemma_dec_shape_seq(value_types, Seq::empty(), s, pos + 9);
            assert(Seq::empty() + value_types =~= value_types);
        },
    }
}

/// Decoding the encodings of shapes in a row appends them to the
/// accumulator.
pub proof fn lemma_dec_shape_seq(
    ms: Seq<HeapValueTypeView>,
    acc: Seq<HeapValueTypeView>,
    s: Seq<u8>,
    pos: int,
)
    requires
        shape_seq_wf(ms),
        0 <= pos,
        pos + enc_shape_seq(ms).len() <= s.len(),
        s.subrange(pos, pos + enc_shape_seq(ms).len() as int) == enc_shape_seq(ms),
    ensures
        dec_shape_seq(s, pos, ms.len() as int, acc) == Some(
            (acc + ms, pos + enc_shape_seq(ms).len() as int),
        ),
    decreases ms,
{
    if ms.len() == 0 {
        assert(acc + ms =~= acc);
    } else {
        let rest = ms.drop_first();
        lemma_split(s, pos, enc_shape(ms[0]), enc_shape_seq(rest));
        lemma_dec_shape(ms[0], s, pos);
        lemma_enc_shape_len(ms[0]);
        let p1 = pos + enc_shape(ms[0]).len() as int;
        lemma_dec_shape_seq(rest, acc.push(ms[0]), s, p1);
        assert(acc.push(ms[0]) + rest =~= acc + ms);
    }
}

impl HeapValueType {
    pub fn encode(&self, out: &mut Vec<u8>)
        ensures
            final(out)@ == old(out)@ + enc_shape(self@),
        decreases *self,
    {
        match self {
            HeapValueType::Simple(b) => {
                write_u8(out, 0);
                b.encode(out);
                proof {
                    assert(out@ =~= old(out)@ + enc_shape(self@));
                }
            },
            HeapValueType::Array { value_types, size } => {
                write_u8(out, 1);
                write_u64(out, value_types.len() as u64);
                encode_shape_list(value_types, out);
                write_usize(out, *size);
                proof {
                    lemma_shapes_of(value_types@);
                    assert(out@ =~= old(out)@ + enc_shape(self@));
                }
            },
            HeapValueType::Vector { value_types } => {
                write_u8(out, 2);
                write_u64(out, value_types.len() as u64);
                encode_shape_list(value_types, out);
                proof {
                    lemma_shapes_of(value_types@);
                    assert(out@ =~= old(out)@ + enc_shape(self@));
                }
            },
        }
    }

    pub fn decode(data: &[u8], pos: usize) -> (r: Option<(Self, usize)>)
        ensures
            match r {
                Some(p) => dec_shape(data@, pos as int) == Some((p.0@, p.1 as int)) && pos < p.1
                    <= data@.len(),
                None => dec_shape(data@, pos as int) is None,
            },
        decreases data@.len() - pos, 0int,
    {
        match read_u8(data, pos) {
            Some((tag, p1)) => {
                if tag == 0 {
                    match BitSize::decode(data, p1) {
                        Some((b, p2)) => Some((HeapValueType::Simple(b), p2)),
                        None => None,
                    }
                } else if tag == 1 {
                    match read_u64(data, p1) {
                        Some((count, p2)) => {
                            if count <= usize::MAX as u64 {
                                match decode_shape_list(data, p2, count as usize) {
                                    Some((elems, p3)) => {
                                        match read_usize(data, p3) {
                                            Some((size, p4)) => {
                                                let r = HeapValueType::Array {
                                                    value_types: elems,
                                                    size,
                                                };
                                                proof {
                                                    assert(r@ =~= HeapValueTypeView::Array {
                                                        value_types: shapes_of(elems@),
                                                        size: size,
                                                    });
                                                }
                                                Some((r, p4))
                                            },
                                            None => None,
                                        }
                                    },
                                    None => None,
                                }
                            } else {
                                None
                            }
                        },
                        None => None,
                    }
                } else if tag == 2 {
                    match read_u64(data, p1) {
                        Some((count, p2)) => {
                            if count <= usize::MAX as u64 {
                                match decode_shape_list(data, p2, count as usize) {
                                    Some((elems, p3)) => {
                                        let r = HeapValueType::Vector { value_types: elems };
                                        proof {
                                            assert(r@ =~= HeapValueTypeView::Vector {
                                                value_types: shapes_of(elems@),
                                            });
                                        }
                                        Some((r, p3))
                                    },
                                    None => None,
                                }
                            } else {
                                None
                            }
                        },
                        None => None,
                    }
                } else {
                    None
                }
            },
            None => None,
        }
    }
}

/// `enc_shape_seq` grows one shape at a time at its end.
proof fn lemma_enc_shape_seq_snoc(ms: Seq<HeapValueTypeView>, m: HeapValueTypeView)
    ensures
        enc_shape_seq(ms.push(m)) == enc_shape_seq(ms) + enc_shape(m),
    decreases ms,
{
    reveal_with_fuel(enc_shape_seq, 3);
    assert(ms.push(m)[0] == if ms.len() == 0 {
        m
    } else {
        ms[0]
    });
    if ms.len() == 0 {
        assert(ms.push(m).drop_first() =~= Seq::<HeapValueTypeView>::empty());
        assert(enc_shape_seq(ms.push(m).drop_first()) == enc_shape_seq(
            Seq::<HeapValueTypeView>::empty(),
        ));
        assert(enc_shape_seq(ms.push(m)) =~= enc_shape_seq(ms) + enc_shape(m));
    } else {
        assert(ms.push(m).drop_first() =~= ms.drop_first().push(m));
        lemma_enc_shape_seq_snoc(ms.drop_first(), m);
        assert(enc_shape_seq(ms.push(m)) =~= enc_shape_seq(ms) + enc_shape(m));
    }
}

fn encode_shape_list(v: &Vec<HeapValueType>, out: &mut Vec<u8>)
    ensures
        final(out)@ == old(out)@ + enc_shape_seq(shapes_of(v@)),
    decreases v@,
{
    proof {
        lemma_shapes_of(v@);
    }
    let mut j: usize = 0;
    while j < v.len()
        invariant
            0 <= j <= v@.len(),
            shapes_of(v@).len() == v@.len(),
            forall|i: int| 0 <= i < v@.len() ==> #[trigger] shapes_of(v@)[i] == hvt_view(v@[i]),
            out@ == old(out)@ + enc_shape_seq(shapes_of(v@).take(j as int)),
        decreases v@.len() - j,
    {
        v[j].encode(out);
        proof {
            assert(shapes_of(v@).take(j + 1) =~= shapes_of(v@).take(j as int).push(
                hvt_view(v@[j as int]),
            ));
            lemma_enc_shape_seq_snoc(shapes_of(v@).take(j as int), hvt_view(v@[j as int]));
            assert(out@ =~= old(out)@ + enc_shape_seq(shapes_of(v@).take(j + 1)));
        }
        j = j + 1;
    }
    proof {
        assert(shapes_of(v@).take(v@.len() as int) =~= shapes_of(v@));
    }
}

fn decode_shape_list(data: &[u8], pos: usize, n: usize) -> (r: Option<(Vec<HeapValueType>, usize)>)
    requires
        pos <= data@.len(),
    ensures
        match r {
            Some(p) => dec_shape_seq(data@, pos as int, n as int, Seq::empty()) == Some(
                (shapes_of(p.0@), p.1 as int),
            ) && pos <= p.1 <= data@.len(),
            None => dec_shape_seq(data@, pos as int, n as int, Seq::empty()) is None,
        },
    decreases data@.len() - pos, n,
{
    let mut elems: Vec<HeapValueType> = Vec::new();
    let mut cur: usize = pos;
    let mut remaining: usize = n;
    proof {
        lemma_shapes_of(elems@);
        assert(shapes_of(elems@) =~= Seq::<HeapValueTypeView>::empty());
    }
    loop
        invariant
            remaining <= n,
            pos <= cur <= data@.len(),
            remaining < n ==> pos < cur,
            dec_shape_seq(data@, pos as int, n as int, Seq::empty()) == dec_shape_seq(
                data@,
                cur as int,
                remaining as int,
                shapes_of(elems@),
            ),
        decreases remaining,
    {
        if remaining == 0 {
            return Some((elems, cur));
        }
        match HeapValueType::decode(data, cur) {
            Some((v, p)) => {
                proof {
                    lemma_shapes_of(elems@);
                    lemma_shapes_of(elems@.push(v));
                    assert(shapes_of(elems@.push(v)) =~= shapes_of(elems@).push(v@));
                }
                elems.push(v);
                cur = p;
                remaining = remaining - 1;
            },
            None => {
                return None;
            },
        }
    }
}

// ---------------------------------------------------------------------------
// Counted lists of foreign-call descriptors and of shapes.
// ---------------------------------------------------------------------------

pub open spec fn enc_voa_seq(vs: Seq<ValueOrArray>) -> Seq<u8>
    decreases vs.len(),
{
    if vs.len() == 0 {
        Seq::empty()
    } else {
        enc_value_or_array(vs[0]) + enc_voa_seq(vs.drop_first())
    }
}

pub open spec fn dec_voa_seq(s: Seq<u8>, pos: int, n: int, acc: Seq<ValueOrArray>) -> Option<
    (Seq<ValueOrArray>, int),
>
    decreases n,
{
    if n <= 0 {
        Some((acc, pos))
    } else {
        match dec_value_or_array(s, pos) {
            Some(r) => dec_voa_seq(s, r.1, n - 1, acc.push(r.0)),
            None => None,
        }
    }
}

/// A counted list: the element count, then the elements.
pub open spec fn enc_voas(vs: Seq<ValueOrArray>) -> Seq<u8> {
    spec_u64_to_le_bytes(vs.len() as u64) + enc_voa_seq(vs)
}

pub open spec fn dec_voas(s: Seq<u8>, pos: int) -> Option<(Seq<ValueOrArray>, int)> {
    match dec_u64(s, pos) {
        Some(t) => if t.0 <= usize::MAX as u64 {
            dec_voa_seq(s, t.1, t.0 as int, Seq::empty())
        } else {
            None
        },
        None => None,
    }
}

/// Decoding the encodings of foreign-call descriptors in a row appends them
/// to the accumulator.
pub proof fn lemma_dec_voa_seq(vs: Seq<ValueOrArray>, acc: Seq<ValueOrArray>, s: Seq<u8>, pos: int)
    requires
        0 <= pos,
        pos + enc_voa_seq(vs).len() <= s.len(),
        s.subrange(pos, pos + enc_voa_seq(vs).len() as int) == enc_voa_seq(vs),
    ensures
        dec_voa_seq(s, pos, vs.len() as int, acc) == Some(
            (acc + vs, pos + enc_voa_seq(vs).len() as int),
        ),
    decreases vs.len(),
{
    if vs.len() == 0 {
        assert(acc + vs =~= acc);
    } else {
        let rest = vs.drop_first();
        lemma_split(s, pos, enc_value_or_array(vs[0]), enc_voa_seq(rest));
        lemma_dec_value_or_array(s, pos, vs[0]);
        lemma_dec_voa_seq(rest, acc.push(vs[0]), s, pos + enc_value_or_array(vs[0]).len());
        assert(acc.push(vs[0]) + rest =~= acc + vs);
    }
}

/// Decoding the encoding of a counted descriptor list yields the list back.
pub proof fn lemma_dec_voas(vs: Seq<ValueOrArray>, s: Seq<u8>, pos: int)
    requires
        vs.len() <= usize::MAX,
        0 <= pos,
        pos + enc_voas(vs).len() <= s.len(),
        s.subrange(pos, pos + enc_voas(vs).len() as int) == enc_voas(vs),
    ensures
        dec_voas(s, pos) == Some((vs, pos + enc_voas(vs).len() as int)),
{
    lemma_auto_spec_u64_to_from_le_bytes();
    lemma_split(s, pos, spec_u64_to_le_bytes(vs.len() as u64), enc_voa_seq(vs));
    lemma_dec_u64(s, pos, vs.len() as u64);
    lemma_dec_voa_seq(vs, Seq::empty(), s, pos + 8);
    assert(Seq::empty() + vs =~= vs);
}

/// A counted list of shapes.
pub open spec fn enc_shapes(ms: Seq<HeapValueTypeView>) -> Seq<u8> {
    spec_u64_to_le_bytes(ms.len() as u64) + enc_shape_seq(ms)
}

pub open spec fn dec_shapes(s: Seq<u8>, pos: int) -> Option<(Seq<HeapValueTypeView>, int)> {
    match dec_u64(s, pos) {
        Some(t) => if t.0 <= usize::MAX as u64 {
            dec_shape_seq(s, t.1, t.0 as int, Seq::empty())
        } else {
            None
        },
        None => None,
    }
}

/// Decoding the encoding of a counted shape list yields the list back.
pub proof fn lemma_dec_shapes(ms: Seq<HeapValueTypeView>, s: Seq<u8>, pos: int)
    requires
        shape_seq_wf(ms),
        ms.len() <= usize::MAX,
        0 <= pos,
        pos + enc_shapes(ms).len() <= s.len(),
        s.subrange(pos, pos + enc_shapes(ms).len() as int) == enc_shapes(ms),
    ensures
        dec_shapes(s, pos) == Some((ms, pos + enc_shapes(ms).len() as int)),
{
    lemma_auto_spec_u64_to_from_le_bytes();
    lemma_split(s, pos, spec_u64_to_le_bytes(ms.len() as u64), enc_shape_seq(ms));
    lemma_dec_u64(s, pos, ms.len() as u64);
    lemma_dec_shape_seq(ms, Seq::empty(), s, pos + 8);
    assert(Seq::empty() + ms =~= ms);
}

proof fn lemma_enc_voa_seq_snoc(vs: Seq<ValueOrArray>, v: ValueOrArray)
    ensures
        enc_voa_seq(vs.push(v)) == enc_voa_seq(vs) + enc_value_or_array(v),
    decreases vs.len(),
{
    reveal_with_fuel(enc_voa_seq, 3);
    assert(vs.push(v)[0] == if vs.len() == 0 {
        v
    } else {
        vs[0]
    });
    if vs.len() == 0 {
        assert(vs.push(v).drop_first() =~= Seq::<ValueOrArray>::empty());
        assert(enc_voa_seq(vs.push(v).drop_first()) == enc_voa_seq(Seq::<ValueOrArray>::empty()));
        assert(enc_voa_seq(vs.push(v)) =~= enc_voa_seq(vs) + enc_value_or_array(v));
    } else {
        assert(vs.push(v).drop_first() =~= vs.drop_first().push(v));
        lemma_enc_voa_seq_snoc(vs.drop_first(), v);
        assert(enc_voa_seq(vs.push(v)) =~= enc_voa_seq(vs) + enc_value_or_array(v));
    }
}

fn write_voas(out: &mut Vec<u8>, vs: &Vec<ValueOrArray>)
    ensures
        final(out)@ == old(out)@ + enc_voas(vs@),
{
    write_u64(out, vs.len() as u64);
    let mut j: usize = 0;
    while j < vs.len()
        invariant
            0 <= j <= vs@.len(),
            out@ == old(out)@ + spec_u64_to_le_bytes(vs@.len() as u64) + enc_voa_seq(
                vs@.take(j as int),
            ),
        decreases vs@.len() - j,
    {
        vs[j].encode(out);
        proof {
            assert(vs@.take(j + 1) =~= vs@.take(j as int).push(vs@[j as int]));
            lemma_enc_voa_seq_snoc(vs@.take(j as int), vs@[j as int]);
            assert(out@ =~= old(out)@ + spec_u64_to_le_bytes(vs@.len() as u64) + enc_voa_seq(
                vs@.take(j + 1),
            ));
        }
        j = j + 1;
    }
    proof {
        assert(vs@.take(vs@.len() as int) =~= vs@);
        assert(out@ =~= old(out)@ + enc_voas(vs@));
    }
}

fn read_voas(data: &[u8], pos: usize) -> (r: Option<(Vec<ValueOrArray>, usize)>)
    ensures
        match r {
            Some(p) => dec_voas(data@, pos as int) == Some((p.0@, p.1 as int)) && p.1
                <= data@.len(),
            None => dec_voas(data@, pos as int) is None,
        },
{
    match read_u64(data, pos) {
        Some((count, p1)) => {
            if count <= usize::MAX as u64 {
                let n = count as usize;
                let mut elems: Vec<ValueOrArray> = Vec::new();
                let mut cur: usize = p1;
                let mut remaining: usize = n;
                loop
                    invariant
                        cur <= data@.len(),
                        dec_voas(data@, pos as int) == dec_voa_seq(
                            data@,
                            cur as int,
                            remaining as int,
                            elems@,
                        ),
                    decreases remaining,
                {
                    if remaining == 0 {
                        return Some((elems, cur));
                    }
                    match ValueOrArray::decode(data, cur) {
                        Some((v, p)) => {
                            elems.push(v);
                            cur = p;
                            remaining = remaining - 1;
                        },
                        None => {
                            return None;
                        },
                    }
                }
            } else {
                None
            }
        },
        None => None,
    }
}

fn write_shapes(out: &mut Vec<u8>, ms: &Vec<HeapValueType>)
    ensures
        final(out)@ == old(out)@ + enc_shapes(shapes_of(ms@)),
{
    proof {
        lemma_shapes_of(ms@);
    }
    write_u64(out, ms.len() as u64);
    encode_shape_list(ms, out);
    proof {
        assert(out@ =~= old(out)@ + enc_shapes(shapes_of(ms@)));
    }
}

fn read_shapes(data: &[u8], pos: usize) -> (r: Option<(Vec<HeapValueType>, usize)>)
    ensures
        match r {
            Some(p) => dec_shapes(data@, pos as int) == Some((shapes_of(p.0@), p.1 as int)) && p.1
                <= data@.len(),
            None => dec_shapes(data@, pos as int) is None,
        },
{
    match read_u64(data, pos) {
        Some((count, p1)) => {
            if count <= usize::MAX as u64 {
                match decode_shape_list(data, p1, count as usize) {
                    Some((elems, p2)) => Some((elems, p2)),
                    None => None,
                }
            } else {
                None
            }
        },
        None => None,
    }
}

// ---------------------------------------------------------------------------
// Instructions: a tag byte, then the fields in declaration order.
// ---------------------------------------------------------------------------

pub open spec fn enc_opcode<F: FieldElement>(m: BrilligOpcodeView<F>) -> Seq<u8> {
    match m {
        BrilligOpcodeView::BinaryFieldOp { destination, op, lhs, rhs } => enc_u8(0) + enc_addr(
            destination,
        ) + enc_field_op(op) + enc_addr(lhs) + enc_addr(rhs),
        BrilligOpcodeView::BinaryIntOp { destination, op, bit_size, lhs, rhs } => enc_u8(1)
            + enc_addr(destination) + enc_int_op(op) + enc_int_size(bit_size) + enc_addr(lhs)
            + enc_addr(rhs),
        BrilligOpcodeView::Not { destination, source, bit_size } => enc_u8(2) + enc_addr(
            destination,
        ) + enc_addr(source) + enc_int_size(bit_size),
        BrilligOpcodeView::Cast { destination, source, bit_size } => enc_u8(3) + enc_addr(
            destination,
        ) + enc_addr(source) + enc_bit_size(bit_size),
        BrilligOpcodeView::JumpIfNot { condition, location } => enc_u8(4) + enc_addr(condition)
            + enc_usize(location),
        BrilligOpcodeView::JumpIf { condition, location } => enc_u8(5) + enc_addr(condition)
            + enc_usize(location),
        BrilligOpcodeView::Jump { location } => enc_u8(6) + enc_usize(location),
        BrilligOpcodeView::CalldataCopy { destination_address, size_address, offset_address } => (
        enc_u8(7) + enc_addr(destination_address) + enc_addr(size_address) + enc_addr(
            offset_address,
        )),
        BrilligOpcodeView::Call { location } => enc_u8(8) + enc_usize(location),
        BrilligOpcodeView::Const { destination, bit_size, value } => enc_u8(9) + enc_addr(
            destination,
        ) + enc_bit_size(bit_size) + value.encoding(),
        BrilligOpcodeView::IndirectConst { destination_pointer, bit_size, value } => enc_u8(10)
            + enc_addr(destination_pointer) + enc_bit_size(bit_size) + value.encoding(),
        BrilligOpcodeView::Return => enc_u8(11),
        BrilligOpcodeView::ForeignCall {
            function,
            destinations,
            destination_value_types,
            inputs,
            input_value_types,
        } => enc_u8(12) + enc_string(function) + enc_voas(destinations) + enc_shapes(
            destination_value_types,
        ) + enc_voas(inputs) + enc_shapes(input_value_types),
        BrilligOpcodeView::Mov { destination, source } => enc_u8(13) + enc_addr(destination)
            + enc_addr(source),
        BrilligOpcodeView::ConditionalMov { destination, source_a, source_b, condition } => enc_u8(
            14,
        ) + enc_addr(destination) + enc_addr(source_a) + enc_addr(source_b) + enc_addr(condition),
        BrilligOpcodeView::Load { destination, source_pointer } => enc_u8(15) + enc_addr(
            destination,
        ) + enc_addr(source_pointer),
        BrilligOpcodeView::Store { destination_pointer, source } => enc_u8(16) + enc_addr(
            destination_pointer,
        ) + enc_addr(source),
        BrilligOpcodeView::BlackBox(op) => enc_u8(17) + enc_black_box(op),
        BrilligOpcodeView::Trap { revert_data } => enc_u8(18) + enc_heap_vector(revert_data),
        BrilligOpcodeView::Stop { return_data } => enc_u8(19) + enc_heap_vector(return_data),
    }
}

/// The lists an instruction carries all fit the machine's count type; shapes
/// are well formed in the same sense.
pub open spec fn opcode_wf<F: FieldElement>(m: BrilligOpcodeView<F>) -> bool {
    match m {
        BrilligOpcodeView::ForeignCall {
            function,
            destinations,
            destination_value_types,
            inputs,
            input_value_types,
        } => function.len() <= usize::MAX && destinations.len() <= usize::MAX
            && destination_value_types.len() <= usize::MAX && inputs.len() <= usize::MAX
            && input_value_types.len() <= usize::MAX && shape_seq_wf(destination_value_types)
            && shape_seq_wf(input_value_types),
        _ => true,
    }
}

pub open spec fn dec_opcode<F: FieldElement>(s: Seq<u8>, pos: int) -> Option<
    (BrilligOpcodeView<F>, int),
> {
    match dec_u8(s, pos) {
        Some(t) => {
            let p = t.1;
            if t.0 == 0 {
                match dec_addr(s, p) {
                    Some(a) => match dec_field_op(s, a.1) {
                        Some(o) => match dec_addr(s, o.1) {
                            Some(l) => match dec_addr(s, l.1) {
                                Some(r) => Some(
                                    (
                                        BrilligOpcodeView::BinaryFieldOp {
                                            destination: a.0,
                                            op: o.0,
                                            lhs: l.0,
                                            rhs: r.0,
                                        },
                                        r.1,
                                    ),
                                ),
                                None => None,
                            },
                            None => None,
                        },
                        None => None,
                    },
                    None => None,
                }
            } else if t.0 == 1 {
                match dec_addr(s, p) {
                    Some(a) => match dec_int_op(s, a.1) {
                        Some(o) => match dec_int_size(s, o.1) {
                            Some(w) => match dec_addr(s, w.1) {
                                Some(l) => match dec_addr(s, l.1) {
                                    Some(r) => Some(
                                        (
                                            BrilligOpcodeView::BinaryIntOp {
                                                destination: a.0,
                                                op: o.0,
                                                bit_size: w.0,
                                                lhs: l.0,
                                                rhs: r.0,
                                            },
                                            r.1,
                                        ),
                                    ),
                                    None => None,
                                },
                                None => None,
                            },
                            None => None,
                        },
                        None => None,
                    },
                    None => None,
                }
            } else if t.0 == 2 {
                match dec_addr(s, p) {
                    Some(a) => match dec_addr(s, a.1) {
                        Some(b) => match dec_int_size(s, b.1) {
                            Some(w) => Some(
                                (
                                    BrilligOpcodeView::Not {
                                        destination: a.0,
                                        source: b.0,
                                        bit_size: w.0,
                                    },
                                    w.1,
                                ),
                            ),
                            None => None,
                        },
                        None => None,
                    },
                    None => None,
                }
            } else if t.0 == 3 {
                match dec_addr(s, p) {
                    Some(a) => match dec_addr(s, a.1) {
                        Some(b) => match dec_bit_size(s, b.1) {
                            Some(w) => Some(
                                (
                                    BrilligOpcodeView::Cast {
                                        destination: a.0,
                                        source: b.0,
                                        bit_size: w.0,
                                    },
                                    w.1,
                                ),
                            ),
                            None => None,
                        },
                        None => None,
                    },
                    None => None,
                }
            } else if t.0 == 4 {
                match dec_addr(s, p) {
                    Some(a) => match dec_usize(s, a.1) {
                        Some(l) => Some(
                            (BrilligOpcodeView::JumpIfNot { condition: a.0, location: l.0 }, l.1),
                        ),
                        None => None,
                    },
                    None => None,
                }
            } else if t.0 == 5 {
                match dec_addr(s, p) {
                    Some(a) => match dec_usize(s, a.1) {
                        Some(l) => Some(
                            (BrilligOpcodeView::JumpIf { condition: a.0, location: l.0 }, l.1),
                        ),
                        None => None,
                    },
                    None => None,
                }
            } else if t.0 == 6 {
                match dec_usize(s, p) {
                    Some(l) => Some((BrilligOpcodeView::Jump { location: l.0 }, l.1)),
                    None => None,
                }
            } else if t.0 == 7 {
                match dec_addr(s, p) {
                    Some(a) => match dec_addr(s, a.1) {
                        Some(b) => match dec_addr(s, b.1) {
                            Some(c) => Some(
                                (
                                    BrilligOpcodeView::CalldataCopy {
                                        destination_address: a.0,
                                        size_address: b.0,
                                        offset_address: c.0,
                                    },
                                    c.1,
                                ),
                            ),
                            None => None,
                        },
                        None => None,
                    },
                    None => None,
                }
            } else if t.0 == 8 {
                match dec_usize(s, p) {
                    Some(l) => Some((BrilligOpcodeView::Call { location: l.0 }, l.1)),
                    None => None,
                }
            } else if t.0 == 9 {
                match dec_addr(s, p) {
                    Some(a) => match dec_bit_size(s, a.1) {
                        Some(w) => match F::decoding(s, w.1) {
                            Some(v) => Some(
                                (
                                    BrilligOpcodeView::Const {
                                        destination: a.0,
                                        bit_size: w.0,
                                        value: v.0,
                                    },
                                    v.1,
                                ),
                            ),
                            None => None,
                        },
                        None => None,
                    },
                    None => None,
                }
            } else if t.0 == 10 {
                match dec_addr(s, p) {
                    Some(a) => match dec_bit_size(s, a.1) {
                        Some(w) => match F::decoding(s, w.1) {
                            Some(v) => Some(
                                (
                                    BrilligOpcodeView::IndirectConst {
                                        destination_pointer: a.0,
                                        bit_size: w.0,
                                        value: v.0,
                                    },
                                    v.1,
                                ),
                            ),
                            None => None,
                        },
                        None => None,
                    },
                    None => None,
                }
            } else if t.0 == 11 {
                Some((BrilligOpcodeView::Return, p))
            } else if t.0 == 12 {
                match dec_string(s, p) {
                    Some(f) => match dec_voas(s, f.1) {
                        Some(d) => match dec_shapes(s, d.1) {
                            Some(dt) => match dec_voas(s, dt.1) {
                                Some(i) => match dec_shapes(s, i.1) {
                                    Some(it) => Some(
                                        (
                                            BrilligOpcodeView::ForeignCall {
                                                function: f.0,
                                                destinations: d.0,
                                                destination_value_types: dt.0,
                                                inputs: i.0,
                                                input_value_types: it.0,
                                            },
                                            it.1,
                                        ),
                                    ),
                                    None => None,
                                },
                                None => None,
                            },
                            None => None,
                        },
                        None => None,
                    },
                    None => None,
                }
            } else if t.0 == 13 {
                match dec_addr(s, p) {
                    Some(a) => match dec_addr(s, a.1) {
                        Some(b) => Some(
                            (BrilligOpcodeView::Mov { destination: a.0, source: b.0 }, b.1),
                        ),
                        None => None,
                    },
                    None => None,
                }
            } else if t.0 == 14 {
                match dec_addr(s, p) {
                    Some(a) => match dec_addr(s, a.1) {
                        Some(b) => match dec_addr(s, b.1) {
                            Some(c) => match dec_addr(s, c.1) {
                                Some(d) => Some(
                                    (
                                        BrilligOpcodeView::ConditionalMov {
                                            destination: a.0,
                                            source_a: b.0,
                                            source_b: c.0,
                                            condition: d.0,
                                        },
                                        d.1,
                                    ),
                                ),
                                None => None,
                            },
                            None => None,
                        },
                        None => None,
                    },
                    None => None,
                }
            } else if t.0 == 15 {
                match dec_addr(s, p) {
                    Some(a) => match dec_addr(s, a.1) {
                        Some(b) => Some(
                            (
                                BrilligOpcodeView::Load {
                                    destination: a.0,
                                    source_pointer: b.0,
                                },
                                b.1,
                            ),
                        ),
                        None => None,
                    },
                    None => None,
                }
            } else if t.0 == 16 {
                match dec_addr(s, p) {
                    Some(a) => match dec_addr(s, a.1) {
                        Some(b) => Some(
                            (
                                BrilligOpcodeView::Store {
                                    destination_pointer: a.0,
                                    source: b.0,
                                },
                                b.1,
                            ),
                        ),
                        None => None,
                    },
                    None => None,
                }
            } else if t.0 == 17 {
                match dec_black_box(s, p) {
                    Some(b) => Some((BrilligOpcodeView::BlackBox(b.0), b.1)),
                    None => None,
                }
            } else if t.0 == 18 {
                match dec_heap_vector(s, p) {
                    Some(h) => Some((BrilligOpcodeView::Trap { revert_data: h.0 }, h.1)),
                    None => None,
                }
            } else if t.0 == 19 {
                match dec_heap_vector(s, p) {
                    Some(h) => Some((BrilligOpcodeView::Stop { return_data: h.0 }, h.1)),
                    None => None,
                }
            } else {
                None
            }
        },
        None => None,
    }
}

/// Decoding the encoding of an instruction yields the instruction back.
#[verifier::rlimit(100)]
#[verifier::spinoff_prover]
pub proof fn lemma_dec_opcode<F: FieldElement>(m: BrilligOpcodeView<F>, s: Seq<u8>, pos: int)
    requires
        opcode_wf(m),
        0 <= pos,
        pos + enc_opcode(m).len() <= s.len(),
        s.subrange(pos, pos + enc_opcode(m).len() as int) == enc_opcode(m),
    ensures
        dec_opcode::<F>(s, pos) == Some((m, pos + enc_opcode(m).len() as int)),
{
    lemma_auto_spec_u64_to_from_le_bytes();
    match m {
        BrilligOpcodeView::BinaryFieldOp { destination, op, lhs, rhs } => {
            let a = enc_addr(destination);
            let b = enc_field_op(op);
            let c = enc_addr(lhs);
            let d = enc_addr(rhs);
            lemma_split(s, pos, enc_u8(0) + a + b + c, d);
            lemma_split(s, pos, enc_u8(0) + a + b, c);
            lemma_split(s, pos, enc_u8(0) + a, b);
            lemma_split(s, pos, enc_u8(0), a);
            lemma_dec_u8(s, pos, 0);
            lemma_dec_addr(s, pos + 1, destination);
            lemma_dec_field_op(s, pos + 1 + a.len(), op);
            lemma_dec_addr(s, pos + 1 + a.len() + b.len(), lhs);
            lemma_dec_addr(s, pos + 1 + a.len() + b.len() + c.len(), rhs);
        },
        BrilligOpcodeView::BinaryIntOp { destination, op, bit_size, lhs, rhs } => {
            let a = enc_addr(destination);
            let b = enc_int_op(op);
            let w = enc_int_size(bit_size);
            let c = enc_addr(lhs);
            let d = enc_addr(rhs);
            lemma_split(s, pos, enc_u8(1) + a + b + w + c, d);
            lemma_split(s, pos, enc_u8(1) + a + b + w, c);
            lemma_split(s, pos, enc_u8(1) + a + b, w);
            lemma_split(s, pos, enc_u8(1) + a, b);
            lemma_split(s, pos, enc_u8(1), a);
            lemma_dec_u8(s, pos, 1);
            lemma_dec_addr(s, pos + 1, destination);
            lemma_dec_int_op(s, pos + 1 + a.len(), op);
            lemma_dec_int_size(s, pos + 1 + a.len() + b.len(), bit_size);
            lemma_dec_addr(s, pos + 1 + a.len() + b.len() + w.len(), lhs);
            lemma_dec_addr(s, pos + 1 + a.len() + b.len() + w.len() + c.len(), rhs);
        },
        BrilligOpcodeView::Not { destination, source, bit_size } => {
            let a = enc_addr(destination);
            let b = enc_addr(source);
            let w = enc_int_size(bit_size);
            lemma_split(s, pos, enc_u8(2) + a + b, w);
            lemma_split(s, pos, enc_u8(2) + a, b);
            lemma_split(s, pos, enc_u8(2), a);
            lemma_dec_u8(s, pos, 2);
            lemma_dec_addr(s, pos + 1, destination);
            lemma_dec_addr(s, pos + 1 + a.len(), source);
            lemma_dec_int_size(s, pos + 1 + a.len() + b.len(), bit_size);
        },
        BrilligOpcodeView::Cast { destination, source, bit_size } => {
            let a = enc_addr(destination);
            let b = enc_addr(source);
            let w = enc_bit_size(bit_size);
            lemma_split(s, pos, enc_u8(3) + a + b, w);
            lemma_split(s, pos, enc_u8(3) + a, b);
            lemma_split(s, pos, enc_u8(3), a);
            lemma_dec_u8(s, pos, 3);
            lemma_dec_addr(s, pos + 1, destination);
            lemma_dec_addr(s, pos + 1 + a.len(), source);
            lemma_dec_bit_size(s, pos + 1 + a.len() + b.len(), bit_size);
        },
        BrilligOpcodeView::JumpIfNot { condition, location } => {
            let a = enc_addr(condition);
            let l = enc_usize(location);
            lemma_split(s, pos, enc_u8(4) + a, l);
            lemma_split(s, pos, enc_u8(4), a);
            lemma_dec_u8(s, pos, 4);
            lemma_dec_addr(s, pos + 1, condition);
            lemma_dec_usize(s, pos + 1 + a.len(), location);
        },
        BrilligOpcodeView::JumpIf { condition, location } => {
            let a = enc_addr(condition);
            let l = enc_usize(location);
            lemma_split(s, pos, enc_u8(5) + a, l);
            lemma_split(s, pos, enc_u8(5), a);
            lemma_dec_u8(s, pos, 5);
            lemma_dec_addr(s, pos + 1, condition);
            lemma_dec_usize(s, pos + 1 + a.len(), location);
        },
        BrilligOpcodeView::Jump { location } => {
            lemma_split(s, pos, enc_u8(6), enc_usize(location));
            lemma_dec_u8(s, pos, 6);
            lemma_dec_usize(s, pos + 1, location);
        },
        BrilligOpcodeView::CalldataCopy { destination_address, size_address, offset_address } => {
            let a = enc_addr(destination_address);
            let b = enc_addr(size_address);
            let c = enc_addr(offset_address);
            lemma_split(s, pos, enc_u8(7) + a + b, c);
            lemma_split(s, pos, enc_u8(7) + a, b);
            lemma_split(s, pos, enc_u8(7), a);
            lemma_dec_u8(s, pos, 7);
            lemma_dec_addr(s, pos + 1, destination_address);
            lemma_dec_addr(s, pos + 1 + a.len(), size_address);
            lemma_dec_addr(s, pos + 1 + a.len() + b.len(), offset_address);
        },
        BrilligOpcodeView::Call { location } => {
            lemma_split(s, pos, enc_u8(8), enc_usize(location));
            lemma_dec_u8(s, pos, 8);
            lemma_dec_usize(s, pos + 1, location);
        },
        BrilligOpcodeView::Const { destination, bit_size, value } => {
            let a = enc_addr(destination);
            let w = enc_bit_size(bit_size);
            let v = value.encoding();
            lemma_split(s, pos, enc_u8(9) + a + w, v);
            lemma_split(s, pos, enc_u8(9) + a, w);
            lemma_split(s, pos, enc_u8(9), a);
            lemma_dec_u8(s, pos, 9);
            lemma_dec_addr(s, pos + 1, destination);
            lemma_dec_bit_size(s, pos + 1 + a.len(), bit_size);
            value.lemma_codec_round_trip(s, pos + 1 + a.len() + w.len());
        },
        BrilligOpcodeView::IndirectConst { destination_pointer, bit_size, value } => {
            let a = enc_addr(destination_pointer);
            let w = enc_bit_size(bit_size);
            let v = value.encoding();
            lemma_split(s, pos, enc_u8(10) + a + w, v);
            lemma_split(s, pos, enc_u8(10) + a, w);
            lemma_split(s, pos, enc_u8(10), a);
            lemma_dec_u8(s, pos, 10);
            lemma_dec_addr(s, pos + 1, destination_pointer);
            lemma_dec_bit_size(s, pos + 1 + a.len(), bit_size);
            value.lemma_codec_round_trip(s, pos + 1 + a.len() + w.len());
        },
        BrilligOpcodeView::Return => {
            lemma_dec_u8(s, pos, 11);
        },
        BrilligOpcodeView::ForeignCall {
            function,
            destinations,
            destination_value_types,
            inputs,
            input_value_types,
        } => {
            let f = enc_string(function);
            let d = enc_voas(destinations);
            let dt = enc_shapes(destination_value_types);
            let i = enc_voas(inputs);
            let it = enc_shapes(input_value_types);
            lemma_split(s, pos, enc_u8(12) + f + d + dt + i, it);
            lemma_split(s, pos, enc_u8(12) + f + d + dt, i);
            lemma_split(s, pos, enc_u8(12) + f + d, dt);
            lemma_split(s, pos, enc_u8(12) + f, d);
            lemma_split(s, pos, enc_u8(12), f);
            lemma_dec_u8(s, pos, 12);
            lemma_dec_string(function, s, pos + 1);
            lemma_dec_voas(destinations, s, pos + 1 + f.len());
            lemma_dec_shapes(destination_value_types, s, pos + 1 + f.len() + d.len());
            lemma_dec_voas(inputs, s, pos + 1 + f.len() + d.len() + dt.len());
            lemma_dec_shapes(input_value_types, s, pos + 1 + f.len() + d.len() + dt.len() + i.len());
        },
        BrilligOpcodeView::Mov { destination, source } => {
            let a = enc_addr(destination);
            lemma_split(s, pos, enc_u8(13) + a, enc_addr(source));
            lemma_split(s, pos, enc_u8(13), a);
            lemma_dec_u8(s, pos, 13);
            lemma_dec_addr(s, pos + 1, destination);
            lemma_dec_addr(s, pos + 1 + a.len(), source);
        },
        BrilligOpcodeView::ConditionalMov { destination, source_a, source_b, condition } => {
            let a = enc_addr(destination);
            let b = enc_addr(source_a);
            let c = enc_addr(source_b);
            let d = enc_addr(condition);
            lemma_split(s, pos, enc_u8(14) + a + b + c, d);
            lemma_split(s, pos, enc_u8(14) + a + b, c);
            lemma_split(s, pos, enc_u8(14) + a, b);
            lemma_split(s, pos, enc_u8(14), a);
            lemma_dec_u8(s, pos, 14);
            lemma_dec_addr(s, pos + 1, destination);
            lemma_dec_addr(s, pos + 1 + a.len(), source_a);
            lemma_dec_addr(s, pos + 1 + a.len() + b.len(), source_b);
            lemma_dec_addr(s, pos + 1 + a.len() + b.len() + c.len(), condition);
        },
        BrilligOpcodeView::Load { destination, source_pointer } => {
            let a = enc_addr(destination);
            lemma_split(s, pos, enc_u8(15) + a, enc_addr(source_pointer));
            lemma_split(s, pos, enc_u8(15), a);
            lemma_dec_u8(s, pos, 15);
            lemma_dec_addr(s, pos + 1, destination);
            lemma_dec_addr(s, pos + 1 + a.len(), source_pointer);
        },
        BrilligOpcodeView::Store { destination_pointer, source } => {
            let a = enc_addr(destination_pointer);
            lemma_split(s, pos, enc_u8(16) + a, enc_addr(source));
            lemma_split(s, pos, enc_u8(16), a);
            lemma_dec_u8(s, pos, 16);
            lemma_dec_addr(s, pos + 1, destination_pointer);
            lemma_dec_addr(s, pos + 1 + a.len(), source);
        },
        BrilligOpcodeView::BlackBox(op) => {
            lemma_split(s, pos, enc_u8(17), enc_black_box(op));
            lemma_dec_u8(s, pos, 17);
            lemma_dec_black_box(s, pos + 1, op);
        },
        BrilligOpcodeView::Trap { revert_data } => {
            lemma_split(s, pos, enc_u8(18), enc_heap_vector(revert_data));
            lemma_dec_u8(s, pos, 18);
            lemma_dec_heap_vector(s, pos + 1, revert_data);
        },
        BrilligOpcodeView::Stop { return_data } => {
            lemma_split(s, pos, enc_u8(19), enc_heap_vector(return_data));
            lemma_dec_u8(s, pos, 19);
            lemma_dec_heap_vector(s, pos + 1, return_data);
        },
    }
}

impl<F: FieldElement> BrilligOpcode<F> {
    #[verifier::rlimit(100)]
    #[verifier::spinoff_prover]
    pub fn encode(&self, out: &mut Vec<u8>)
        ensures
            final(out)@ == old(out)@ + enc_opcode(self@),
    {
        match self {
            BrilligOpcode::BinaryFieldOp { destination, op, lhs, rhs } => {
                write_u8(out, 0);
                destination.encode(out);
                op.encode(out);
                lhs.encode(out);
                rhs.encode(out);
            },
            BrilligOpcode::BinaryIntOp { destination, op, bit_size, lhs, rhs } => {
                write_u8(out, 1);
                destination.encode(out);
                op.encode(out);
                bit_size.encode(out);
                lhs.encode(out);
                rhs.encode(out);
            },
            BrilligOpcode::Not { destination, source, bit_size } => {
                write_u8(out, 2);
                destination.encode(out);
                source.encode(out);
                bit_size.encode(out);
            },
            BrilligOpcode::Cast { destination, source, bit_size } => {
                write_u8(out, 3);
                destination.encode(out);
                source.encode(out);
                bit_size.encode(out);
            },
            BrilligOpcode::JumpIfNot { condition, location } => {
                write_u8(out, 4);
                condition.encode(out);
                write_usize(out, *location);
            },
            BrilligOpcode::JumpIf { condition, location } => {
                write_u8(out, 5);
                condition.encode(out);
                write_usize(out, *location);
            },
            BrilligOpcode::Jump { location } => {
                write_u8(out, 6);
                write_usize(out, *location);
            },
            BrilligOpcode::CalldataCopy { destination_address, size_address, offset_address } => {
                write_u8(out, 7);
                destination_address.encode(out);
                size_address.encode(out);
                offset_address.encode(out);
            },
            BrilligOpcode::Call { location } => {
                write_u8(out, 8);
                write_usize(out, *location);
            },
            BrilligOpcode::Const { destination, bit_size, value } => {
                write_u8(out, 9);
                destination.encode(out);
                bit_size.encode(out);
                value.encode(out);
            },
            BrilligOpcode::IndirectConst { destination_pointer, bit_size, value } => {
                write_u8(out, 10);
                destination_pointer.encode(out);
                bit_size.encode(out);
                value.encode(out);
            },
            BrilligOpcode::Return => {
                write_u8(out, 11);
            },
            BrilligOpcode::ForeignCall {
                function,
                destinations,
                destination_value_types,
                inputs,
                input_value_types,
            } => {
                write_u8(out, 12);
                write_str(out, function.as_str());
                write_voas(out, destinations);
                write_shapes(out, destination_value_types);
                write_voas(out, inputs);
                write_shapes(out, input_value_types);
            },
            BrilligOpcode::Mov { destination, source } => {
                write_u8(out, 13);
                destination.encode(out);
                source.encode(out);
            },
            BrilligOpcode::ConditionalMov { destination, source_a, source_b, condition } => {
                write_u8(out, 14);
                destination.encode(out);
                source_a.encode(out);
                source_b.encode(out);
                condition.encode(out);
            },
            BrilligOpcode::Load { destination, source_pointer } => {
                write_u8(out, 15);
                destination.encode(out);
                source_pointer.encode(out);
            },
            BrilligOpcode::Store { destination_pointer, source } => {
                write_u8(out, 16);
                destination_pointer.encode(out);
                source.encode(out);
            },
            BrilligOpcode::BlackBox(op) => {
                write_u8(out, 17);
                op.encode(out);
            },
            BrilligOpcode::Trap { revert_data } => {
                write_u8(out, 18);
                revert_data.encode(out);
            },
            BrilligOpcode::Stop { return_data } => {
                write_u8(out, 19);
                return_data.encode(out);
            },
        }
        proof {
            assert(out@ =~= old(out)@ + enc_opcode(self@));
        }
    }

    #[verifier::rlimit(100)]
    #[verifier::spinoff_prover]
    pub fn decode(data: &[u8], pos: usize) -> (r: Option<(Self, usize)>)
        ensures
            match r {
                Some(p) => dec_opcode::<F>(data@, pos as int) == Some((p.0@, p.1 as int)),
                None => dec_opcode::<F>(data@, pos as int) is None,
            },
    {
        match read_u8(data, pos) {
            Some((tag, p)) => {
                if tag == 0 {
                    match MemoryAddress::decode(data, p) {
                        Some((destination, p1)) => match BinaryFieldOp::decode(data, p1) {
                            Some((op, p2)) => match MemoryAddress::decode(data, p2) {
                                Some((lhs, p3)) => match MemoryAddress::decode(data, p3) {
                                    Some((rhs, p4)) => Some(
                                        (
                                            BrilligOpcode::BinaryFieldOp {
                                                destination,
                                                op,
                                                lhs,
                                                rhs,
                                            },
                                            p4,
                                        ),
                                    ),
                                    None => None,
                                },
                                None => None,
                            },
                            None => None,
                        },
                        None => None,
                    }
                } else if tag == 1 {
                    match MemoryAddress::decode(data, p) {
                        Some((destination, p1)) => match BinaryIntOp::decode(data, p1) {
                            Some((op, p2)) => match IntegerBitSize::decode(data, p2) {
                                Some((bit_size, p3)) => match MemoryAddress::decode(data, p3) {
                                    Some((lhs, p4)) => match MemoryAddress::decode(data, p4) {
                                        Some((rhs, p5)) => Some(
                                            (
                                                BrilligOpcode::BinaryIntOp {
                                                    destination,
                                                    op,
                                                    bit_size,
                                                    lhs,
                                                    rhs,
                                                },
                                                p5,
                                            ),
                                        ),
                                        None => None,
                                    },
                                    None => None,
                                },
                                None => None,
                            },
                            None => None,
                        },
                        None => None,
                    }
                } else if tag == 2 {
                    match MemoryAddress::decode(data, p) {
                        Some((destination, p1)) => match MemoryAddress::decode(data, p1) {
                            Some((source, p2)) => match IntegerBitSize::decode(data, p2) {
                                Some((bit_size, p3)) => Some(
                                    (BrilligOpcode::Not { destination, source, bit_size }, p3),
                                ),
                                None => None,
                            },
                            None => None,
                        },
                        None => None,
                    }
                } else if tag == 3 {
                    match MemoryAddress::decode(data, p) {
                        Some((destination, p1)) => match MemoryAddress::decode(data, p1) {
                            Some((source, p2)) => match BitSize::decode(data, p2) {
                                Some((bit_size, p3)) => Some(
                                    (BrilligOpcode::Cast { destination, source, bit_size }, p3),
                                ),
                                None => None,
                            },
                            None => None,
                        },
                        None => None,
                    }
                } else if tag == 4 {
                    match MemoryAddress::decode(data, p) {
                        Some((condition, p1)) => match read_usize(data, p1) {
                            Some((location, p2)) => Some(
                                (BrilligOpcode::JumpIfNot { condition, location }, p2),
                            ),
                            None => None,
                        },
                        None => None,
                    }
                } else if tag == 5 {
                    match MemoryAddress::decode(data, p) {
                        Some((condition, p1)) => match read_usize(data, p1) {
                            Some((location, p2)) => Some(
                                (BrilligOpcode::JumpIf { condition, location }, p2),
                            ),
                            None => None,
                        },
                        None => None,
                    }
                } else if tag == 6 {
                    match read_usize(data, p) {
                        Some((location, p1)) => Some((BrilligOpcode::Jump { location }, p1)),
                        None => None,
                    }
                } else if tag == 7 {
                    match MemoryAddress::decode(data, p) {
                        Some((destination_address, p1)) => match MemoryAddress::decode(data, p1) {
                            Some((size_address, p2)) => match MemoryAddress::decode(data, p2) {
                                Some((offset_address, p3)) => Some(
                                    (
                                        BrilligOpcode::CalldataCopy {
                                            destination_address,
                                            size_address,
                                            offset_address,
                                        },
                                        p3,
                                    ),
                                ),
                                None => None,
                            },
                            None => None,
                        },
                        None => None,
                    }
                } else if tag == 8 {
                    match read_usize(data, p) {
                        Some((location, p1)) => Some((BrilligOpcode::Call { location }, p1)),
                        None => None,
                    }
                } else if tag == 9 {
                    match MemoryAddress::decode(data, p) {
                        Some((destination, p1)) => match BitSize::decode(data, p1) {
                            Some((bit_size, p2)) => match F::decode(data, p2) {
                                Some((value, p3)) => Some(
                                    (BrilligOpcode::Const { destination, bit_size, value }, p3),
                                ),
                                None => None,
                            },
                            None => None,
                        },
                        None => None,
                    }
                } else if tag == 10 {
                    match MemoryAddress::decode(data, p) {
                        Some((destination_pointer, p1)) => match BitSize::decode(data, p1) {
                            Some((bit_size, p2)) => match F::decode(data, p2) {
                                Some((value, p3)) => Some(
                                    (
                                        BrilligOpcode::IndirectConst {
                                            destination_pointer,
                                            bit_size,
                                            value,
                                        },
                                        p3,
                                    ),
                                ),
                                None => None,
                            },
                            None => None,
                        },
                        None => None,
                    }
                } else if tag == 11 {
                    Some((BrilligOpcode::Return, p))
                } else if tag == 12 {
                    match read_string(data, p) {
                        Some((function, p1)) => match read_voas(data, p1) {
                            Some((destinations, p2)) => match read_shapes(data, p2) {
                                Some((destination_value_types, p3)) => match read_voas(data, p3) {
                                    Some((inputs, p4)) => match read_shapes(data, p4) {
                                        Some((input_value_types, p5)) => {
                                            let r = BrilligOpcode::ForeignCall {
                                                function,
                                                destinations,
                                                destination_value_types,
                                                inputs,
                                                input_value_types,
                                            };
                                            Some((r, p5))
                                        },
                                        None => None,
                                    },
                                    None => None,
                                },
                                None => None,
                            },
                            None => None,
                        },
                        None => None,
                    }
                } else if tag == 13 {
                    match MemoryAddress::decode(data, p) {
                        Some((destination, p1)) => match MemoryAddress::decode(data, p1) {
                            Some((source, p2)) => Some(
                                (BrilligOpcode::Mov { destination, source }, p2),
                            ),
                            None => None,
                        },
                        None => None,
                    }
                } else if tag == 14 {
                    match MemoryAddress::decode(data, p) {
                        Some((destination, p1)) => match MemoryAddress::decode(data, p1) {
                            Some((source_a, p2)) => match MemoryAddress::decode(data, p2) {
                                Some((source_b, p3)) => match MemoryAddress::decode(data, p3) {
                                    Some((condition, p4)) => Some(
                                        (
                                            BrilligOpcode::ConditionalMov {
                                                destination,
                                                source_a,
                                                source_b,
                                                condition,
                                            },
                                            p4,
                                        ),
                                    ),
                                    None => None,
                                },
                                None => None,
                            },
                            None => None,
                        },
                        None => None,
                    }
                } else if tag == 15 {
                    match MemoryAddress::decode(data, p) {
                        Some((destination, p1)) => match MemoryAddress::decode(data, p1) {
                            Some((source_pointer, p2)) => Some(
                                (BrilligOpcode::Load { destination, source_pointer }, p2),
                            ),
                            None => None,
                        },
                        None => None,
                    }
                } else if tag == 16 {
                    match MemoryAddress::decode(data, p) {
                        Some((destination_pointer, p1)) => match MemoryAddress::decode(data, p1) {
                            Some((source, p2)) => Some(
                                (BrilligOpcode::Store { destination_pointer, source }, p2),
                            ),
                            None => None,
                        },
                        None => None,
                    }
                } else if tag == 17 {
                    match BlackBoxOp::decode(data, p) {
                        Some((op, p1)) => Some((BrilligOpcode::BlackBox(op), p1)),
                        None => None,
                    }
                } else if tag == 18 {
                    match HeapVector::decode(data, p) {
                        Some((revert_data, p1)) => Some(
                            (BrilligOpcode::Trap { revert_data }, p1),
                        ),
                        None => None,
                    }
                } else if tag == 19 {
                    match HeapVector::decode(data, p) {
                        Some((return_data, p1)) => Some(
                            (BrilligOpcode::Stop { return_data }, p1),
                        ),
                        None => None,
                    }
                } else {
                    None
                }
            },
            None => None,
        }
    }
}

} // verus!
