//! Typed values read from, and written to, payload bytes.

use crate::error::PacketProtocolError;
use crate::le::{
    byte_of, le_value, lemma_le_value_bound, lemma_pow256_values, lemma_read_written,
    lemma_written_read, pow256, read_le, write_le,
};
use crate::message::{OwnedMessageId, WireType};
use vstd::arithmetic::div_mod::{lemma_fundamental_div_mod, lemma_fundamental_div_mod_converse};
use vstd::prelude::*;
use vstd::slice::slice_to_vec;
use vstd::string::StringSliceAdditionalSpecFns;
use vstd::utf8::{
    decode_utf8, decode_utf8_encode_utf8, encode_utf8, encode_utf8_decode_utf8,
    encode_utf8_valid_utf8, valid_utf8,
};

verus! {

/// A payload read under its wire type.  Floating-point values are held as
/// their IEEE-754 bit patterns.
#[derive(Clone, Debug, PartialEq, Eq, Hash)]
pub enum VariableKind {
    Callback,
    Custom(Vec<u8>),
    Unknown(u8, Vec<u8>),
    Byte(u8),
    ByteArray(Vec<u8>),
    Char(char),
    CharArray(String),
    I8(i8),
    I8Array(Vec<i8>),
    U8(u8),
    U8Array(Vec<u8>),
    I16(i16),
    I16Array(Vec<i16>),
    U16(u16),
    U16Array(Vec<u16>),
    I32(i32),
    I32Array(Vec<i32>),
    U32(u32),
    U32Array(Vec<u32>),
    F32(u32),
    F32Array(Vec<u32>),
    F64(u64),
    F64Array(Vec<u64>),
}

/// The mathematical value of a `VariableKind`.
pub enum KindView {
    Callback,
    Custom(Seq<u8>),
    Unknown(u8, Seq<u8>),
    Byte(u8),
    ByteArray(Seq<u8>),
    Char(char),
    CharArray(Seq<char>),
    I8(i8),
    I8Array(Seq<i8>),
    U8(u8),
    U8Array(Seq<u8>),
    I16(i16),
    I16Array(Seq<i16>),
    U16(u16),
    U16Array(Seq<u16>),
    I32(i32),
    I32Array(Seq<i32>),
    U32(u32),
    U32Array(Seq<u32>),
    F32(u32),
    F32Array(Seq<u32>),
    F64(u64),
    F64Array(Seq<u64>),
}

impl View for VariableKind {
    type V = KindView;

    open spec fn view(&self) -> KindView {
        match self {
            VariableKind::Callback => KindView::Callback,
            VariableKind::Custom(b) => KindView::Custom(b@),
            VariableKind::Unknown(t, b) => KindView::Unknown(*t, b@),
            VariableKind::Byte(x) => KindView::Byte(*x),
            VariableKind::ByteArray(a) => KindView::ByteArray(a@),
            VariableKind::Char(c) => KindView::Char(*c),
            VariableKind::CharArray(s) => KindView::CharArray(s@),
            VariableKind::I8(x) => KindView::I8(*x),
            VariableKind::I8Array(a) => KindView::I8Array(a@),
            VariableKind::U8(x) => KindView::U8(*x),
            VariableKind::U8Array(a) => KindView::U8Array(a@),
            VariableKind::I16(x) => KindView::I16(*x),
            VariableKind::I16Array(a) => KindView::I16Array(a@),
            VariableKind::U16(x) => KindView::U16(*x),
            VariableKind::U16Array(a) => KindView::U16Array(a@),
            VariableKind::I32(x) => KindView::I32(*x),
            VariableKind::I32Array(a) => KindView::I32Array(a@),
            VariableKind::U32(x) => KindView::U32(*x),
            VariableKind::U32Array(a) => KindView::U32Array(a@),
            VariableKind::F32(x) => KindView::F32(*x),
            VariableKind::F32Array(a) => KindView::F32Array(a@),
            VariableKind::F64(x) => KindView::F64(*x),
            VariableKind::F64Array(a) => KindView::F64Array(a@),
        }
    }
}

pub open spec fn signed8(x: nat) -> i8 {
    if x >= 0x80 { (x - 0x100) as i8 } else { x as i8 }
}

pub open spec fn signed16(x: nat) -> i16 {
    if x >= 0x8000 { (x - 0x1_0000) as i16 } else { x as i16 }
}

pub open spec fn signed32(x: nat) -> i32 {
    if x >= 0x8000_0000 { (x - 0x1_0000_0000) as i32 } else { x as i32 }
}

pub open spec fn bits8(v: i8) -> nat {
    if v < 0 { (v + 0x100) as nat } else { v as nat }
}

pub open spec fn bits16(v: i16) -> nat {
    if v < 0 { (v + 0x1_0000) as nat } else { v as nat }
}

pub open spec fn bits32(v: i32) -> nat {
    if v < 0 { (v + 0x1_0000_0000) as nat } else { v as nat }
}

/// The `i`-th little-endian word of width `w` in `d`.
pub open spec fn word(d: Seq<u8>, w: nat, i: int) -> nat {
    le_value(d, w * i, w)
}

/// The bytes of the words `xs`, each `w` bytes wide, lowest byte first.
pub open spec fn word_bytes(xs: Seq<nat>, w: nat) -> Seq<u8> {
    Seq::new(xs.len() * w, |j: int| byte_of(xs[j / w as int], (j % w as int) as nat))
}

/// How many elements a payload of `len` bytes holds under `t`.
pub open spec fn element_count(t: WireType, len: nat) -> nat {
    if t.spec_width() == 0 { 0 } else { len / t.spec_width() }
}

/// What a payload `d` reads as under `t`: an error when its length is not a
/// whole number of elements or when character data is not UTF-8; else the
/// scalar form for exactly one element and the array form for any other
/// count.
pub open spec fn decode_spec(t: WireType, d: Seq<u8>) -> Result<KindView, PacketProtocolError> {
    let w = t.spec_width();
    let n = element_count(t, d.len());
    let arr = n != 1;
    if w != 0 && d.len() % w != 0 {
        Err(PacketProtocolError::ProtocolViolation)
    } else {
        match t {
            WireType::Callback => Ok(KindView::Callback),
            WireType::Custom => Ok(KindView::Custom(d)),
            WireType::OffsetMetadata => Ok(KindView::Unknown(2, Seq::empty())),
            WireType::Unknown(x) => Ok(KindView::Unknown(x, d)),
            WireType::Byte => Ok(if arr { KindView::ByteArray(d) } else { KindView::Byte(d[0]) }),
            WireType::Char => if arr {
                if valid_utf8(d) {
                    Ok(KindView::CharArray(decode_utf8(d)))
                } else {
                    Err(PacketProtocolError::Utf8)
                }
            } else if d[0] < 0x80 {
                Ok(KindView::Char(d[0] as char))
            } else {
                Err(PacketProtocolError::Utf8)
            },
            WireType::I8 => Ok(
                if arr {
                    KindView::I8Array(Seq::new(n, |i: int| signed8(d[i] as nat)))
                } else {
                    KindView::I8(signed8(d[0] as nat))
                },
            ),
            WireType::U8 => Ok(if arr { KindView::U8Array(d) } else { KindView::U8(d[0]) }),
            WireType::I16 => Ok(
                if arr {
                    KindView::I16Array(Seq::new(n, |i: int| signed16(word(d, 2, i))))
                } else {
                    KindView::I16(signed16(word(d, 2, 0)))
                },
            ),
            WireType::U16 => Ok(
                if arr {
                    KindView::U16Array(Seq::new(n, |i: int| word(d, 2, i) as u16))
                } else {
                    KindView::U16(word(d, 2, 0) as u16)
                },
            ),
            WireType::I32 => Ok(
                if arr {
                    KindView::I32Array(Seq::new(n, |i: int| signed32(word(d, 4, i))))
                } else {
                    KindView::I32(signed32(word(d, 4, 0)))
                },
            ),
            WireType::U32 => Ok(
                if arr {
                    KindView::U32Array(Seq::new(n, |i: int| word(d, 4, i) as u32))
                } else {
                    KindView::U32(word(d, 4, 0) as u32)
                },
            ),
            WireType::F32 => Ok(
                if arr {
                    KindView::F32Array(Seq::new(n, |i: int| word(d, 4, i) as u32))
                } else {
                    KindView::F32(word(d, 4, 0) as u32)
                },
            ),
            WireType::F64 => Ok(
                if arr {
                    KindView::F64Array(Seq::new(n, |i: int| word(d, 8, i) as u64))
                } else {
                    KindView::F64(word(d, 8, 0) as u64)
                },
            ),
        }
    }
}

/// The wire type and payload bytes that carry a value.
pub open spec fn encode_spec(v: KindView) -> (WireType, Seq<u8>) {
    match v {
        KindView::Callback => (WireType::Callback, Seq::empty()),
        KindView::Custom(b) => (WireType::Custom, b),
        KindView::Unknown(t, b) => (WireType::Unknown(t), b),
        KindView::Byte(x) => (WireType::Byte, seq![x]),
        KindView::ByteArray(a) => (WireType::Byte, a),
        KindView::Char(c) => (WireType::Char, seq![c as u8]),
        KindView::CharArray(s) => (WireType::Char, encode_utf8(s)),
        KindView::I8(x) => (WireType::I8, seq![bits8(x) as u8]),
        KindView::I8Array(a) => (WireType::I8, a.map_values(|x: i8| bits8(x) as u8)),
        KindView::U8(x) => (WireType::U8, seq![x]),
        KindView::U8Array(a) => (WireType::U8, a),
        KindView::I16(x) => (WireType::I16, word_bytes(seq![bits16(x)], 2)),
        KindView::I16Array(a) => (WireType::I16, word_bytes(a.map_values(|x: i16| bits16(x)), 2)),
        KindView::U16(x) => (WireType::U16, word_bytes(seq![x as nat], 2)),
        KindView::U16Array(a) => (WireType::U16, word_bytes(a.map_values(|x: u16| x as nat), 2)),
        KindView::I32(x) => (WireType::I32, word_bytes(seq![bits32(x)], 4)),
        KindView::I32Array(a) => (WireType::I32, word_bytes(a.map_values(|x: i32| bits32(x)), 4)),
        KindView::U32(x) => (WireType::U32, word_bytes(seq![x as nat], 4)),
        KindView::U32Array(a) => (WireType::U32, word_bytes(a.map_values(|x: u32| x as nat), 4)),
        KindView::F32(x) => (WireType::F32, word_bytes(seq![x as nat], 4)),
        KindView::F32Array(a) => (WireType::F32, word_bytes(a.map_values(|x: u32| x as nat), 4)),
        KindView::F64(x) => (WireType::F64, word_bytes(seq![x as nat], 8)),
        KindView::F64Array(a) => (WireType::F64, word_bytes(a.map_values(|x: u64| x as nat), 8)),
    }
}

/// A value that decoding can produce: arrays do not hold exactly one
/// element (one element reads as the scalar form) and a lone character is
/// ASCII.
pub open spec fn is_decodable(v: KindView) -> bool {
    match v {
        KindView::ByteArray(a) => a.len() != 1,
        KindView::Char(c) => (c as u32) < 0x80,
        KindView::CharArray(s) => encode_utf8(s).len() != 1,
        KindView::I8Array(a) => a.len() != 1,
        KindView::U8Array(a) => a.len() != 1,
        KindView::I16Array(a) => a.len() != 1,
        KindView::U16Array(a) => a.len() != 1,
        KindView::I32Array(a) => a.len() != 1,
        KindView::U32Array(a) => a.len() != 1,
        KindView::F32Array(a) => a.len() != 1,
        KindView::F64Array(a) => a.len() != 1,
        _ => true,
    }
}

/// Relies on `std::str::from_utf8`: it accepts exactly the valid UTF-8
/// byte sequences and then yields the characters they encode.
#[verifier::external_body]
pub(crate) fn utf8_str(d: &[u8]) -> (r: Option<&str>)
    ensures
        r is Some <==> valid_utf8(d@),
        r matches Some(s) ==> s@ == decode_utf8(d@),
{
    std::str::from_utf8(d).ok()
}

fn to_i8(x: u8) -> (r: i8)
    ensures
        r == signed8(x as nat),
{
    if x >= 0x80 {
        (x as i16 - 0x100) as i8
    } else {
        x as i8
    }
}

fn to_i16(x: u64) -> (r: i16)
    requires
        x < 0x1_0000,
    ensures
        r == signed16(x as nat),
{
    if x >= 0x8000 {
        (x as i64 - 0x1_0000) as i16
    } else {
        x as i16
    }
}

fn to_i32(x: u64) -> (r: i32)
    requires
        x < 0x1_0000_0000,
    ensures
        r == signed32(x as nat),
{
    if x >= 0x8000_0000 {
        (x as i64 - 0x1_0000_0000) as i32
    } else {
        x as i32
    }
}

/// Reads the `i`-th word of width `w`.
fn read_word(d: &[u8], w: usize, i: usize) -> (r: u64)
    requires
        1 <= w <= 8,
        i < d@.len() / (w as nat),
    ensures
        r as nat == word(d@, w as nat, i as int),
        (r as nat) < pow256(w as nat),
{
    let len = d.len();
    proof {
        lemma_word_in_bounds(d@.len(), w as nat, i as nat);
        assert(w * i <= len);
    }
    let r = read_le(d, w * i, w);
    proof {
        lemma_le_value_bound(d@, w * i, w as nat);
    }
    r
}

proof fn lemma_word_in_bounds(len: nat, w: nat, i: nat)
    requires
        1 <= w,
        i < len / w,
    ensures
        w * i + w <= len,
{
    lemma_fundamental_div_mod(len as int, w as int);
    assert(w * i + w <= w * (len / w)) by (nonlinear_arith)
        requires
            i < len / w,
            1 <= w,
    ;
}

fn read_i8s(d: &[u8]) -> (r: Vec<i8>)
    ensures
        r@ == Seq::new(d@.len(), |i: int| signed8(d@[i] as nat)),
{
    let mut r: Vec<i8> = Vec::new();
    let mut i: usize = 0;
    while i < d.len()
        invariant
            i <= d@.len(),
            r@ == Seq::new(i as nat, |k: int| signed8(d@[k] as nat)),
        decreases d@.len() - i,
    {
        r.push(to_i8(d[i]));
        i = i + 1;
        assert(r@ =~= Seq::new(i as nat, |k: int| signed8(d@[k] as nat)));
    }
    r
}

fn read_u16s(d: &[u8], n: usize) -> (r: Vec<u16>)
    requires
        n == d@.len() / 2,
    ensures
        r@ == Seq::new(n as nat, |i: int| word(d@, 2, i) as u16),
{
    let mut r: Vec<u16> = Vec::new();
    let mut i: usize = 0;
    while i < n
        invariant
            i <= n == d@.len() / 2,
            r@ == Seq::new(i as nat, |k: int| word(d@, 2, k) as u16),
        decreases n - i,
    {
        let x = read_word(d, 2, i);
        proof {
            lemma_pow256_values();
        }
        r.push(x as u16);
        i = i + 1;
        assert(r@ =~= Seq::new(i as nat, |k: int| word(d@, 2, k) as u16));
    }
    r
}

fn read_i16s(d: &[u8], n: usize) -> (r: Vec<i16>)
    requires
        n == d@.len() / 2,
    ensures
        r@ == Seq::new(n as nat, |i: int| signed16(word(d@, 2, i))),
{
    let mut r: Vec<i16> = Vec::new();
    let mut i: usize = 0;
    while i < n
        invariant
            i <= n == d@.len() / 2,
            r@ == Seq::new(i as nat, |k: int| signed16(word(d@, 2, k))),
        decreases n - i,
    {
        let x = read_word(d, 2, i);
        proof {
            lemma_pow256_values();
        }
        r.push(to_i16(x));
        i = i + 1;
        assert(r@ =~= Seq::new(i as nat, |k: int| signed16(word(d@, 2, k))));
    }
    r
}

fn read_u32s(d: &[u8], n: usize) -> (r: Vec<u32>)
    requires
        n == d@.len() / 4,
    ensures
        r@ == Seq::new(n as nat, |i: int| word(d@, 4, i) as u32),
{
    let mut r: Vec<u32> = Vec::new();
    let mut i: usize = 0;
    while i < n
        invariant
            i <= n == d@.len() / 4,
            r@ == Seq::new(i as nat, |k: int| word(d@, 4, k) as u32),
        decreases n - i,
    {
        let x = read_word(d, 4, i);
        proof {
            lemma_pow256_values();
        }
        r.push(x as u32);
        i = i + 1;
        assert(r@ =~= Seq::new(i as nat, |k: int| word(d@, 4, k) as u32));
    }
    r
}

fn read_i32s(d: &[u8], n: usize) -> (r: Vec<i32>)
    requires
        n == d@.len() / 4,
    ensures
        r@ == Seq::new(n as nat, |i: int| signed32(word(d@, 4, i))),
{
    let mut r: Vec<i32> = Vec::new();
    let mut i: usize = 0;
    while i < n
        invariant
            i <= n == d@.len() / 4,
            r@ == Seq::new(i as nat, |k: int| signed32(word(d@, 4, k))),
        decreases n - i,
    {
        let x = read_word(d, 4, i);
        proof {
            lemma_pow256_values();
        }
        r.push(to_i32(x));
        i = i + 1;
        assert(r@ =~= Seq::new(i as nat, |k: int| signed32(word(d@, 4, k))));
    }
    r
}

fn read_u64s(d: &[u8], n: usize) -> (r: Vec<u64>)
    requires
        n == d@.len() / 8,
    ensures
        r@ == Seq::new(n as nat, |i: int| word(d@, 8, i) as u64),
{
    let mut r: Vec<u64> = Vec::new();
    let mut i: usize = 0;
    while i < n
        invariant
            i <= n == d@.len() / 8,
            r@ == Seq::new(i as nat, |k: int| word(d@, 8, k) as u64),
        decreases n - i,
    {
        let x = read_word(d, 8, i);
        r.push(x);
        i = i + 1;
        assert(r@ =~= Seq::new(i as nat, |k: int| word(d@, 8, k) as u64));
    }
    r
}


/// Writing one more word appends its bytes.
proof fn lemma_word_bytes_push(xs: Seq<nat>, x: nat, w: nat, before: Seq<u8>, after: Seq<u8>)
    requires
        1 <= w,
        before == word_bytes(xs, w),
        after.len() == before.len() + w,
        after.subrange(0, before.len() as int) == before,
        forall|k: nat| k < w ==> after[before.len() + k as int] == byte_of(x, k),
    ensures
        after == word_bytes(xs.push(x), w),
{
    let ys = xs.push(x);
    let m = xs.len();
    assert((m + 1) * w == m * w + w) by (nonlinear_arith);
    assert forall|j: int| 0 <= j < after.len() implies after[j] == word_bytes(ys, w)[j] by {
        if j < m * w {
            assert(after[j] == after.subrange(0, before.len() as int)[j]);
            lemma_fundamental_div_mod(j, w as int);
            assert(j / (w as int) < m) by (nonlinear_arith)
                requires
                    j < m * w,
                    j == w * (j / (w as int)) + j % (w as int),
                    0 <= j % (w as int),
                    1 <= w,
            ;
            assert(0 <= j / (w as int)) by (nonlinear_arith)
                requires
                    0 <= j,
                    1 <= w,
            ;
        } else {
            let k = j - m * w;
            lemma_fundamental_div_mod_converse(j, w as int, m as int, k);
            assert(after[before.len() + k] == byte_of(x, k as nat));
        }
    }
    assert(after =~= word_bytes(ys, w));
}

fn write_i8s(a: &Vec<i8>) -> (r: Vec<u8>)
    ensures
        r@ == a@.map_values(|x: i8| bits8(x) as u8),
{
    let mut out: Vec<u8> = Vec::new();
    let mut i: usize = 0;
    while i < a.len()
        invariant
            i <= a@.len(),
            out@ == a@.subrange(0, i as int).map_values(|x: i8| bits8(x) as u8),
        decreases a@.len() - i,
    {
        let x = a[i];
        let b: u8 = if x < 0 { (x as i16 + 0x100) as u8 } else { x as u8 };
        out.push(b);
        i = i + 1;
        assert(out@ =~= a@.subrange(0, i as int).map_values(|x: i8| bits8(x) as u8));
    }
    assert(a@.subrange(0, a@.len() as int) =~= a@);
    out
}

fn write_u16s(a: &Vec<u16>) -> (r: Vec<u8>)
    ensures
        r@ == word_bytes(a@.map_values(|x: u16| x as nat), 2),
{
    let mut out: Vec<u8> = Vec::new();
    let mut i: usize = 0;
    assert(out@ =~= word_bytes(a@.subrange(0, 0).map_values(|x: u16| x as nat), 2));
    while i < a.len()
        invariant
            i <= a@.len(),
            out@ == word_bytes(a@.subrange(0, i as int).map_values(|x: u16| x as nat), 2),
        decreases a@.len() - i,
    {
        let ghost before = out@;
        write_le(&mut out, a[i] as u64, 2);
        proof {
            let xs = a@.subrange(0, i as int).map_values(|x: u16| x as nat);
            lemma_word_bytes_push(xs, a@[i as int] as nat, 2, before, out@);
            assert(xs.push(a@[i as int] as nat) =~= a@.subrange(0, i + 1).map_values(
                |x: u16| x as nat,
            ));
        }
        i = i + 1;
    }
    assert(a@.subrange(0, a@.len() as int) =~= a@);
    out
}

fn write_i16s(a: &Vec<i16>) -> (r: Vec<u8>)
    ensures
        r@ == word_bytes(a@.map_values(|x: i16| bits16(x)), 2),
{
    let mut out: Vec<u8> = Vec::new();
    let mut i: usize = 0;
    assert(out@ =~= word_bytes(a@.subrange(0, 0).map_values(|x: i16| bits16(x)), 2));
    while i < a.len()
        invariant
            i <= a@.len(),
            out@ == word_bytes(a@.subrange(0, i as int).map_values(|x: i16| bits16(x)), 2),
        decreases a@.len() - i,
    {
        let ghost before = out@;
        let x = a[i];
        let u: u64 = if x < 0 { (x as i64 + 0x1_0000) as u64 } else { x as u64 };
        write_le(&mut out, u, 2);
        proof {
            let xs = a@.subrange(0, i as int).map_values(|x: i16| bits16(x));
            lemma_word_bytes_push(xs, bits16(a@[i as int]), 2, before, out@);
            assert(xs.push(bits16(a@[i as int])) =~= a@.subrange(0, i + 1).map_values(
                |x: i16| bits16(x),
            ));
        }
        i = i + 1;
    }
    assert(a@.subrange(0, a@.len() as int) =~= a@);
    out
}

fn write_u32s(a: &Vec<u32>) -> (r: Vec<u8>)
    ensures
        r@ == word_bytes(a@.map_values(|x: u32| x as nat), 4),
{
    let mut out: Vec<u8> = Vec::new();
    let mut i: usize = 0;
    assert(out@ =~= word_bytes(a@.subrange(0, 0).map_values(|x: u32| x as nat), 4));
    while i < a.len()
        invariant
            i <= a@.len(),
            out@ == word_bytes(a@.subrange(0, i as int).map_values(|x: u32| x as nat), 4),
        decreases a@.len() - i,
    {
        let ghost before = out@;
        write_le(&mut out, a[i] as u64, 4);
        proof {
            let xs = a@.subrange(0, i as int).map_values(|x: u32| x as nat);
            lemma_word_bytes_push(xs, a@[i as int] as nat, 4, before, out@);
            assert(xs.push(a@[i as int] as nat) =~= a@.subrange(0, i + 1).map_values(
                |x: u32| x as nat,
            ));
        }
        i = i + 1;
    }
    assert(a@.subrange(0, a@.len() as int) =~= a@);
    out
}

fn write_i32s(a: &Vec<i32>) -> (r: Vec<u8>)
    ensures
        r@ == word_bytes(a@.map_values(|x: i32| bits32(x)), 4),
{
    let mut out: Vec<u8> = Vec::new();
    let mut i: usize = 0;
    assert(out@ =~= word_bytes(a@.subrange(0, 0).map_values(|x: i32| bits32(x)), 4));
    while i < a.len()
        invariant
            i <= a@.len(),
            out@ == word_bytes(a@.subrange(0, i as int).map_values(|x: i32| bits32(x)), 4),
        decreases a@.len() - i,
    {
        let ghost before = out@;
        let x = a[i];
        let u: u64 = if x < 0 { (x as i64 + 0x1_0000_0000) as u64 } else { x as u64 };
        write_le(&mut out, u, 4);
        proof {
            let xs = a@.subrange(0, i as int).map_values(|x: i32| bits32(x));
            lemma_word_bytes_push(xs, bits32(a@[i as int]), 4, before, out@);
            assert(xs.push(bits32(a@[i as int])) =~= a@.subrange(0, i + 1).map_values(
                |x: i32| bits32(x),
            ));
        }
        i = i + 1;
    }
    assert(a@.subrange(0, a@.len() as int) =~= a@);
    out
}

fn write_u64s(a: &Vec<u64>) -> (r: Vec<u8>)
    ensures
        r@ == word_bytes(a@.map_values(|x: u64| x as nat), 8),
{
    let mut out: Vec<u8> = Vec::new();
    let mut i: usize = 0;
    assert(out@ =~= word_bytes(a@.subrange(0, 0).map_values(|x: u64| x as nat), 8));
    while i < a.len()
        invariant
            i <= a@.len(),
            out@ == word_bytes(a@.subrange(0, i as int).map_values(|x: u64| x as nat), 8),
        decreases a@.len() - i,
    {
        let ghost before = out@;
        write_le(&mut out, a[i], 8);
        proof {
            let xs = a@.subrange(0, i as int).map_values(|x: u64| x as nat);
            lemma_word_bytes_push(xs, a@[i as int] as nat, 8, before, out@);
            assert(xs.push(a@[i as int] as nat) =~= a@.subrange(0, i + 1).map_values(
                |x: u64| x as nat,
            ));
        }
        i = i + 1;
    }
    assert(a@.subrange(0, a@.len() as int) =~= a@);
    out
}

/// The bytes of one word.
fn write_one(x: u64, w: usize) -> (r: Vec<u8>)
    requires
        1 <= w <= 8,
    ensures
        r@ == word_bytes(seq![x as nat], w as nat),
{
    let mut out: Vec<u8> = Vec::new();
    assert(out@ =~= word_bytes(Seq::<nat>::empty(), w as nat));
    let ghost before = out@;
    write_le(&mut out, x, w);
    proof {
        lemma_word_bytes_push(Seq::<nat>::empty(), x as nat, w as nat, before, out@);
        assert(Seq::<nat>::empty().push(x as nat) =~= seq![x as nat]);
    }
    out
}

/// Words read from whole-word bytes write back as those bytes.
proof fn lemma_words_then_bytes(d: Seq<u8>, w: nat)
    requires
        1 <= w <= 8,
        d.len() % w == 0,
    ensures
        word_bytes(Seq::new(d.len() / w, |i: int| word(d, w, i)), w) == d,
{
    let n = d.len() / w;
    let xs = Seq::new(n, |i: int| word(d, w, i));
    lemma_fundamental_div_mod(d.len() as int, w as int);
    assert(n * w == d.len()) by (nonlinear_arith)
        requires
            d.len() == w * n + 0,
    ;
    let s = word_bytes(xs, w);
    assert forall|j: int| 0 <= j < d.len() implies s[j] == d[j] by {
        lemma_fundamental_div_mod(j, w as int);
        let q = j / (w as int);
        let r = j % (w as int);
        assert(0 <= q < n) by (nonlinear_arith)
            requires
                j == w * q + r,
                0 <= r < w,
                0 <= j < n * w,
        ;
        lemma_word_in_bounds(d.len(), w, q as nat);
        lemma_written_read(d, w * q, w, r as nat);
    }
    assert(s =~= d);
}

/// Bytes written from words read back as those words.
proof fn lemma_bytes_then_words(xs: Seq<nat>, w: nat)
    requires
        1 <= w <= 8,
        forall|i: int| 0 <= i < xs.len() ==> xs[i] < pow256(w),
    ensures
        word_bytes(xs, w).len() % w == 0,
        word_bytes(xs, w).len() / w == xs.len(),
        forall|i: int| 0 <= i < xs.len() ==> word(word_bytes(xs, w), w, i) == xs[i],
{
    let s = word_bytes(xs, w);
    lemma_fundamental_div_mod_converse((xs.len() * w) as int, w as int, xs.len() as int, 0);
    assert forall|i: int| 0 <= i < xs.len() implies word(s, w, i) == xs[i] by {
        assert(w * i + w <= xs.len() * w) by (nonlinear_arith)
            requires
                0 <= i < xs.len(),
                1 <= w,
        ;
        assert forall|k: nat| k < w implies s[w * i + k] == byte_of(xs[i], k) by {
            lemma_fundamental_div_mod_converse(w * i + k, w as int, i, k as int);
        }
        assert(0 <= w * i) by (nonlinear_arith)
            requires
                0 <= i,
        ;
        lemma_read_written(s, w * i, w, xs[i]);
    }
}

proof fn lemma_signed_bits()
    ensures
        forall|x: nat| x < 0x100 ==> #[trigger] bits8(signed8(x)) == x,
        forall|x: nat| x < 0x1_0000 ==> #[trigger] bits16(signed16(x)) == x,
        forall|x: nat| x < 0x1_0000_0000 ==> #[trigger] bits32(signed32(x)) == x,
        forall|v: i8| #[trigger] signed8(bits8(v)) == v,
        forall|v: i16| #[trigger] signed16(bits16(v)) == v,
        forall|v: i32| #[trigger] signed32(bits32(v)) == v,
        forall|v: i8| #[trigger] bits8(v) < 0x100,
        forall|v: i16| #[trigger] bits16(v) < 0x1_0000,
        forall|v: i32| #[trigger] bits32(v) < 0x1_0000_0000,
{
}

/// A payload whose length is not a whole number of elements of a sized
/// type is a protocol violation.
pub proof fn lemma_length_mismatch(t: WireType, d: Seq<u8>)
    requires
        t.spec_width() != 0,
        d.len() % t.spec_width() != 0,
    ensures
        decode_spec(t, d) == Err::<KindView, PacketProtocolError>(
            PacketProtocolError::ProtocolViolation,
        ),
{
}

/// Reading a payload and writing the value back gives the payload again,
/// under the same wire type for all but the offset marker, which reads as
/// an unknown tag.  A callback or offset marker carries no payload, and
/// character data must be UTF-8, a lone character ASCII.
pub proof fn lemma_decode_then_encode(t: WireType, d: Seq<u8>)
    requires
        t.spec_width() == 0 || d.len() % t.spec_width() == 0,
        t is Callback || t is OffsetMetadata ==> d.len() == 0,
        t is Char && d.len() == 1 ==> d[0] < 0x80,
        t is Char && d.len() != 1 ==> valid_utf8(d),
    ensures
        decode_spec(t, d) is Ok,
        ({
            let v = decode_spec(t, d)->Ok_0;
            &&& encode_spec(v).1 == d
            &&& !(t is OffsetMetadata) ==> encode_spec(v).0 == t
        }),
{
    let w = t.spec_width();
    let n = element_count(t, d.len());
    lemma_pow256_values();
    lemma_signed_bits();
    if w != 0 {
        lemma_fundamental_div_mod(d.len() as int, w as int);
        if n == 1 {
            assert(d.len() == w);
        }
    }
    let v = decode_spec(t, d)->Ok_0;
    match t {
        WireType::Callback => {
            assert(d =~= Seq::<u8>::empty());
        },
        WireType::OffsetMetadata => {
            assert(d =~= Seq::<u8>::empty());
        },
        WireType::Byte | WireType::U8 => {
            if n == 1 {
                assert(d =~= seq![d[0]]);
            }
        },
        WireType::Char => {
            assert(d.len() / 1 == d.len());
            if n == 1 {
                assert(d =~= seq![d[0]]);
            } else {
                decode_utf8_encode_utf8(d);
            }
        },
        WireType::I8 => {
            assert(d.len() / 1 == d.len());
            if n == 1 {
                assert(d =~= seq![bits8(signed8(d[0] as nat)) as u8]);
            } else {
                assert(encode_spec(v).1 =~= d);
            }
        },
        WireType::I16 | WireType::U16 | WireType::I32 | WireType::U32 | WireType::F32
        | WireType::F64 => {
            lemma_words_then_bytes(d, w);
            let xs = Seq::new(n, |i: int| word(d, w, i));
            assert forall|i: int| 0 <= i < n implies word(d, w, i) < pow256(w) by {
                lemma_word_in_bounds(d.len(), w, i as nat);
                lemma_le_value_bound(d, w * i, w);
            }
            if n == 1 {
                assert(xs =~= seq![word(d, w, 0)]);
            }
            match t {
                WireType::I16 => {
                    if n != 1 {
                        assert(Seq::new(n, |i: int| signed16(word(d, 2, i))).map_values(
                            |x: i16| bits16(x),
                        ) =~= xs);
                    } else {
                        assert(seq![bits16(signed16(word(d, 2, 0)))] =~= xs);
                    }
                },
                WireType::U16 => {
                    if n != 1 {
                        assert(Seq::new(n, |i: int| word(d, 2, i) as u16).map_values(
                            |x: u16| x as nat,
                        ) =~= xs);
                    } else {
                        assert(seq![(word(d, 2, 0) as u16) as nat] =~= xs);
                    }
                },
                WireType::I32 => {
                    if n != 1 {
                        assert(Seq::new(n, |i: int| signed32(word(d, 4, i))).map_values(
                            |x: i32| bits32(x),
                        ) =~= xs);
                    } else {
                        assert(seq![bits32(signed32(word(d, 4, 0)))] =~= xs);
                    }
                },
                WireType::U32 | WireType::F32 => {
                    if n != 1 {
                        assert(Seq::new(n, |i: int| word(d, 4, i) as u32).map_values(
                            |x: u32| x as nat,
                        ) =~= xs);
                    } else {
                        assert(seq![(word(d, 4, 0) as u32) as nat] =~= xs);
                    }
                },
                _ => {
                    if n != 1 {
                        assert(Seq::new(n, |i: int| word(d, 8, i) as u64).map_values(
                            |x: u64| x as nat,
                        ) =~= xs);
                    } else {
                        assert(seq![(word(d, 8, 0) as u64) as nat] =~= xs);
                    }
                },
            }
        },
        _ => {},
    }
}

proof fn lemma_encode_then_decode_bytes(v: KindView)
    requires
        is_decodable(v),
        !(v is I16 || v is U16 || v is I32 || v is U32 || v is F32 || v is F64 || v is I16Array
            || v is U16Array || v is I32Array || v is U32Array || v is F32Array || v is F64Array),
    ensures
        decode_spec(encode_spec(v).0, encode_spec(v).1) == Ok::<KindView, PacketProtocolError>(v),
{
    lemma_signed_bits();
    let d = encode_spec(v).1;
    lemma_fundamental_div_mod_converse(d.len() as int, 1, d.len() as int, 0);
    match v {
        KindView::CharArray(s) => {
            encode_utf8_valid_utf8(s);
            encode_utf8_decode_utf8(s);
        },
        KindView::I8Array(a) => {
            assert(Seq::new(d.len(), |i: int| signed8(d[i] as nat)) =~= a);
        },
        _ => {},
    }
}

#[verifier::rlimit(50)]
proof fn lemma_encode_then_decode_scalar(v: KindView)
    requires
        v is I16 || v is U16 || v is I32 || v is U32 || v is F32 || v is F64,
    ensures
        decode_spec(encode_spec(v).0, encode_spec(v).1) == Ok::<KindView, PacketProtocolError>(v),
{
    lemma_pow256_values();
    lemma_signed_bits();
    match v {
        KindView::I16(x) => lemma_bytes_then_words(seq![bits16(x)], 2),
        KindView::U16(x) => lemma_bytes_then_words(seq![x as nat], 2),
        KindView::I32(x) => lemma_bytes_then_words(seq![bits32(x)], 4),
        KindView::U32(x) => lemma_bytes_then_words(seq![x as nat], 4),
        KindView::F32(x) => lemma_bytes_then_words(seq![x as nat], 4),
        KindView::F64(x) => lemma_bytes_then_words(seq![x as nat], 8),
        _ => {},
    }
}

#[verifier::rlimit(50)]
proof fn lemma_encode_then_decode_16(v: KindView)
    requires
        is_decodable(v),
        v is I16Array || v is U16Array,
    ensures
        decode_spec(encode_spec(v).0, encode_spec(v).1) == Ok::<KindView, PacketProtocolError>(v),
{
    lemma_pow256_values();
    lemma_signed_bits();
    let d = encode_spec(v).1;
    match v {
        KindView::I16Array(a) => {
            lemma_bytes_then_words(a.map_values(|x: i16| bits16(x)), 2);
            assert(Seq::new(a.len(), |i: int| signed16(word(d, 2, i))) =~= a);
        },
        KindView::U16Array(a) => {
            lemma_bytes_then_words(a.map_values(|x: u16| x as nat), 2);
            assert(Seq::new(a.len(), |i: int| word(d, 2, i) as u16) =~= a);
        },
        _ => {},
    }
}

#[verifier::rlimit(50)]
proof fn lemma_encode_then_decode_32(v: KindView)
    requires
        is_decodable(v),
        v is I32Array || v is U32Array || v is F32Array,
    ensures
        decode_spec(encode_spec(v).0, encode_spec(v).1) == Ok::<KindView, PacketProtocolError>(v),
{
    lemma_pow256_values();
    lemma_signed_bits();
    let d = encode_spec(v).1;
    match v {
        KindView::I32Array(a) => {
            lemma_bytes_then_words(a.map_values(|x: i32| bits32(x)), 4);
            assert(Seq::new(a.len(), |i: int| signed32(word(d, 4, i))) =~= a);
        },
        KindView::U32Array(a) => {
            lemma_bytes_then_words(a.map_values(|x: u32| x as nat), 4);
            assert(Seq::new(a.len(), |i: int| word(d, 4, i) as u32) =~= a);
        },
        KindView::F32Array(a) => {
            lemma_bytes_then_words(a.map_values(|x: u32| x as nat), 4);
            assert(Seq::new(a.len(), |i: int| word(d, 4, i) as u32) =~= a);
        },
        _ => {},
    }
}

#[verifier::rlimit(50)]
proof fn lemma_encode_then_decode_64(a: Seq<u64>)
    requires
        a.len() != 1,
    ensures
        decode_spec(
            encode_spec(KindView::F64Array(a)).0,
            encode_spec(KindView::F64Array(a)).1,
        ) == Ok::<KindView, PacketProtocolError>(KindView::F64Array(a)),
{
    lemma_pow256_values();
    let d = encode_spec(KindView::F64Array(a)).1;
    lemma_bytes_then_words(a.map_values(|x: u64| x as nat), 8);
    assert(Seq::new(a.len(), |i: int| word(d, 8, i) as u64) =~= a);
}

/// Writing a value that decoding can produce and reading the bytes back
/// gives the value again.
pub proof fn lemma_encode_then_decode(v: KindView)
    requires
        is_decodable(v),
    ensures
        decode_spec(encode_spec(v).0, encode_spec(v).1) == Ok::<KindView, PacketProtocolError>(v),
{
    match v {
        KindView::I16(_) | KindView::U16(_) | KindView::I32(_) | KindView::U32(_)
        | KindView::F32(_) | KindView::F64(_) => lemma_encode_then_decode_scalar(v),
        KindView::I16Array(_) | KindView::U16Array(_) => lemma_encode_then_decode_16(v),
        KindView::I32Array(_) | KindView::U32Array(_) | KindView::F32Array(_) => {
            lemma_encode_then_decode_32(v)
        },
        KindView::F64Array(a) => lemma_encode_then_decode_64(a),
        _ => lemma_encode_then_decode_bytes(v),
    }
}

impl VariableKind {
    /// Reads a payload under its wire type.
    pub fn from_wire(typ: WireType, data: &[u8]) -> (r: Result<Self, PacketProtocolError>)
        ensures
            match r {
                Ok(v) => decode_spec(typ, data@) == Ok::<KindView, PacketProtocolError>(v@),
                Err(e) => decode_spec(typ, data@) == Err::<KindView, PacketProtocolError>(e),
            },
    {
        let w = typ.width();
        let len = data.len();
        if w != 0 && len % w != 0 {
            return Err(PacketProtocolError::ProtocolViolation);
        }
        let n: usize = if w == 0 { 0 } else { len / w };
        let is_array = n != 1;
        proof {
            if w != 0 && !is_array {
                lemma_fundamental_div_mod(len as int, w as int);
                assert(len == w);
            }
        }
        match typ {
            WireType::Callback => Ok(VariableKind::Callback),
            WireType::Custom => Ok(VariableKind::Custom(slice_to_vec(data))),
            WireType::OffsetMetadata => Ok(VariableKind::Unknown(2, Vec::new())),
            WireType::Unknown(t) => Ok(VariableKind::Unknown(t, slice_to_vec(data))),
            WireType::Byte => {
                if is_array {
                    Ok(VariableKind::ByteArray(slice_to_vec(data)))
                } else {
                    Ok(VariableKind::Byte(data[0]))
                }
            },
            WireType::Char => {
                if is_array {
                    match utf8_str(data) {
                        Some(s) => Ok(VariableKind::CharArray(s.to_owned())),
                        None => Err(PacketProtocolError::Utf8),
                    }
                } else if data[0] < 0x80 {
                    Ok(VariableKind::Char(data[0] as char))
                } else {
                    Err(PacketProtocolError::Utf8)
                }
            },
            WireType::I8 => {
                if is_array {
                    let a = read_i8s(data);
                    assert(w == 1);
                    proof {
                        lemma_fundamental_div_mod_converse(len as int, 1, len as int, 0);
                    }
                    assert(n == len);
                    assert(a@ =~= Seq::new(n as nat, |i: int| signed8(data@[i] as nat)));
                    Ok(VariableKind::I8Array(a))
                } else {
                    Ok(VariableKind::I8(to_i8(data[0])))
                }
            },
            WireType::U8 => {
                if is_array {
                    Ok(VariableKind::U8Array(slice_to_vec(data)))
                } else {
                    Ok(VariableKind::U8(data[0]))
                }
            },
            WireType::I16 => {
                if is_array {
                    Ok(VariableKind::I16Array(read_i16s(data, n)))
                } else {
                    proof {
                        lemma_pow256_values();
                    }
                    Ok(VariableKind::I16(to_i16(read_word(data, 2, 0))))
                }
            },
            WireType::U16 => {
                if is_array {
                    Ok(VariableKind::U16Array(read_u16s(data, n)))
                } else {
                    proof {
                        lemma_pow256_values();
                    }
                    Ok(VariableKind::U16(read_word(data, 2, 0) as u16))
                }
            },
            WireType::I32 => {
                if is_array {
                    Ok(VariableKind::I32Array(read_i32s(data, n)))
                } else {
                    proof {
                        lemma_pow256_values();
                    }
                    Ok(VariableKind::I32(to_i32(read_word(data, 4, 0))))
                }
            },
            WireType::U32 => {
                if is_array {
                    Ok(VariableKind::U32Array(read_u32s(data, n)))
                } else {
                    proof {
                        lemma_pow256_values();
                    }
                    Ok(VariableKind::U32(read_word(data, 4, 0) as u32))
                }
            },
            WireType::F32 => {
                if is_array {
                    Ok(VariableKind::F32Array(read_u32s(data, n)))
                } else {
                    proof {
                        lemma_pow256_values();
                    }
                    Ok(VariableKind::F32(read_word(data, 4, 0) as u32))
                }
            },
            WireType::F64 => {
                if is_array {
                    Ok(VariableKind::F64Array(read_u64s(data, n)))
                } else {
                    Ok(VariableKind::F64(read_word(data, 8, 0)))
                }
            },
        }
    }
    /// The wire type and payload bytes that carry this value.
    pub fn to_wire(&self) -> (r: (WireType, Vec<u8>))
        ensures
            r.0 == encode_spec(self@).0,
            r.1@ == encode_spec(self@).1,
    {
        match self {
            VariableKind::Callback => (WireType::Callback, Vec::new()),
            VariableKind::Custom(b) => (WireType::Custom, b.clone()),
            VariableKind::Unknown(t, b) => (WireType::Unknown(*t), b.clone()),
            VariableKind::Byte(x) => (WireType::Byte, vec![*x]),
            VariableKind::ByteArray(a) => (WireType::Byte, a.clone()),
            VariableKind::Char(c) => (WireType::Char, vec![*c as u8]),
            VariableKind::CharArray(s) => (WireType::Char, slice_to_vec(s.as_str().as_bytes())),
            VariableKind::I8(x) => {
                let b: u8 = if *x < 0 { (*x as i16 + 0x100) as u8 } else { *x as u8 };
                (WireType::I8, vec![b])
            },
            VariableKind::I8Array(a) => (WireType::I8, write_i8s(a)),
            VariableKind::U8(x) => (WireType::U8, vec![*x]),
            VariableKind::U8Array(a) => (WireType::U8, a.clone()),
            VariableKind::I16(x) => {
                let u: u64 = if *x < 0 { (*x as i64 + 0x1_0000) as u64 } else { *x as u64 };
                (WireType::I16, write_one(u, 2))
            },
            VariableKind::I16Array(a) => (WireType::I16, write_i16s(a)),
            VariableKind::U16(x) => (WireType::U16, write_one(*x as u64, 2)),
            VariableKind::U16Array(a) => (WireType::U16, write_u16s(a)),
            VariableKind::I32(x) => {
                let u: u64 = if *x < 0 { (*x as i64 + 0x1_0000_0000) as u64 } else { *x as u64 };
                (WireType::I32, write_one(u, 4))
            },
            VariableKind::I32Array(a) => (WireType::I32, write_i32s(a)),
            VariableKind::U32(x) => (WireType::U32, write_one(*x as u64, 4)),
            VariableKind::U32Array(a) => (WireType::U32, write_u32s(a)),
            VariableKind::F32(x) => (WireType::F32, write_one(*x as u64, 4)),
            VariableKind::F32Array(a) => (WireType::F32, write_u32s(a)),
            VariableKind::F64(x) => (WireType::F64, write_one(*x, 8)),
            VariableKind::F64Array(a) => (WireType::F64, write_u64s(a)),
        }
    }
}

} // verus!
