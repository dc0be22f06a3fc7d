//! Little-endian integers: their value from bytes and their bytes from a value.

use vstd::arithmetic::div_mod::{lemma_div_denominator, lemma_fundamental_div_mod};
use vstd::prelude::*;

verus! {

pub open spec fn pow256(k: nat) -> nat
    decreases k,
{
    if k == 0 {
        1
    } else {
        256 * pow256((k - 1) as nat)
    }
}

/// Value of the `k` bytes of `d` from `start`, lowest byte first.
pub open spec fn le_value(d: Seq<u8>, start: int, k: nat) -> nat
    decreases k,
{
    if k == 0 {
        0
    } else {
        d[start] as nat + 256 * le_value(d, start + 1, (k - 1) as nat)
    }
}

/// Byte `k` of `x`, counting from the lowest.
pub open spec fn byte_of(x: nat, k: nat) -> u8 {
    ((x / pow256(k)) % 256) as u8
}

pub proof fn lemma_pow256_values()
    ensures
        pow256(1) == 256,
        pow256(2) == 65536,
        pow256(4) == 0x1_0000_0000,
        pow256(7) == 0x100_0000_0000_0000,
        pow256(8) == 0x1_0000_0000_0000_0000,
{
    reveal_with_fuel(pow256, 9);
}

pub proof fn lemma_pow256_positive(k: nat)
    ensures
        pow256(k) > 0,
    decreases k,
{
    if k > 0 {
        lemma_pow256_positive((k - 1) as nat);
    }
}

/// The value of `k` bytes is below `256^k`.
pub proof fn lemma_le_value_bound(d: Seq<u8>, start: int, k: nat)
    requires
        0 <= start,
        start + k <= d.len(),
    ensures
        le_value(d, start, k) < pow256(k),
    decreases k,
{
    if k > 0 {
        let rest = le_value(d, start + 1, (k - 1) as nat);
        lemma_le_value_bound(d, start + 1, (k - 1) as nat);
        let p = pow256((k - 1) as nat);
        let b = d[start] as nat;
        assert(b + 256 * rest < 256 * p) by (nonlinear_arith)
            requires
                b < 256,
                rest < p,
        ;
    }
}

/// Byte `k + 1` of `x` is byte `k` of `x / 256`.
pub proof fn lemma_byte_of_shift(x: nat, k: nat)
    ensures
        byte_of(x, k + 1) == byte_of(x / 256, k),
{
    lemma_pow256_positive(k);
    lemma_div_denominator(x as int, 256, pow256(k) as int);
    assert(pow256(k + 1) == 256 * pow256(k));
    assert(256 * pow256(k) == pow256(k) * 256) by (nonlinear_arith);
}

/// Bytes written from a value read back as that value.
pub proof fn lemma_read_written(s: Seq<u8>, start: int, w: nat, x: nat)
    requires
        0 <= start,
        start + w <= s.len(),
        x < pow256(w),
        forall|k: nat| k < w ==> s[start + k] == byte_of(x, k),
    ensures
        le_value(s, start, w) == x,
    decreases w,
{
    if w == 0 {
        assert(x == 0);
    } else {
        let y = x / 256;
        assert forall|k: nat| k < (w - 1) as nat implies s[start + 1 + k] == byte_of(y, k) by {
            lemma_byte_of_shift(x, k);
            assert(s[start + (k + 1)] == byte_of(x, k + 1));
        }
        let p = pow256((w - 1) as nat);
        assert(y < p) by (nonlinear_arith)
            requires
                x < 256 * p,
                y == x / 256,
        ;
        lemma_read_written(s, start + 1, (w - 1) as nat, y);
        assert(s[start + 0nat] == byte_of(x, 0));
        assert(pow256(0) == 1);
        assert(x / 1 == x);
        assert(s[start] == (x % 256) as u8);
        assert(x % 256 + 256 * (x / 256) == x) by (nonlinear_arith);
    }
}

/// Bytes read as a value are the bytes that value writes.
pub proof fn lemma_written_read(d: Seq<u8>, start: int, w: nat, k: nat)
    requires
        0 <= start,
        start + w <= d.len(),
        k < w,
    ensures
        byte_of(le_value(d, start, w), k) == d[start + k],
    decreases k,
{
    let x = le_value(d, start, w);
    let rest = le_value(d, start + 1, (w - 1) as nat);
    let b = d[start] as nat;
    assert(x / 256 == rest && x % 256 == b) by (nonlinear_arith)
        requires
            x == b + 256 * rest,
            b < 256,
    ;
    if k == 0 {
        assert(pow256(0) == 1);
    } else {
        lemma_byte_of_shift(x, (k - 1) as nat);
        lemma_written_read(d, start + 1, (w - 1) as nat, (k - 1) as nat);
    }
}

/// Reads the `w` bytes of `d` from `start` as a little-endian integer.
pub fn read_le(d: &[u8], start: usize, w: usize) -> (r: u64)
    requires
        w <= 8,
        start + w <= d@.len(),
    ensures
        r as nat == le_value(d@, start as int, w as nat),
{
    let n = d.len();
    let mut r: u64 = 0;
    let mut k: usize = w;
    while k > 0
        invariant
            k <= w <= 8,
            start + w <= d@.len(),
            n == d@.len(),
            r as nat == le_value(d@, start + k, (w - k) as nat),
        decreases k,
    {
        k = k - 1;
        proof {
            lemma_le_value_bound(d@, start + k + 1, (w - k - 1) as nat);
            lemma_pow256_values();
            lemma_pow256_mono((w - k - 1) as nat, 7);
            assert(r < 0x100_0000_0000_0000);
        }
        let b = d[start + k] as u64;
        assert(r * 256 <= 0xffff_ffff_ffff_ff00) by (nonlinear_arith)
            requires
                r < 0x100_0000_0000_0000,
        ;
        r = r * 256 + b;
    }
    r
}

pub proof fn lemma_pow256_mono(a: nat, b: nat)
    requires
        a <= b,
    ensures
        pow256(a) <= pow256(b),
    decreases b,
{
    if a < b {
        lemma_pow256_mono(a, (b - 1) as nat);
    }
}

/// Appends the `w` lowest bytes of `x`, lowest first.
pub fn write_le(out: &mut Vec<u8>, x: u64, w: usize)
    requires
        w <= 8,
    ensures
        final(out)@.len() == old(out)@.len() + w,
        final(out)@.subrange(0, old(out)@.len() as int) == old(out)@,
        forall|k: nat| k < w ==> final(out)@[old(out)@.len() + k as int] == byte_of(x as nat, k),
{
    let ghost start: int = out@.len() as int;
    let mut cur: u64 = x;
    let mut k: usize = 0;
    assert(pow256(0) == 1);
    assert((x as nat) / 1 == x as nat);
    while k < w
        invariant
            k <= w <= 8,
            out@.len() == start + k,
            out@.subrange(0, start) == old(out)@,
            start == old(out)@.len(),
            cur as nat == (x as nat) / pow256(k as nat),
            forall|j: nat| j < k ==> out@[start + j as int] == byte_of(x as nat, j),
        decreases w - k,
    {
        proof {
            lemma_pow256_positive(k as nat);
            lemma_div_denominator(x as int, pow256(k as nat) as int, 256);
            assert(pow256(k as nat + 1) == pow256(k as nat) * 256) by (nonlinear_arith)
                requires
                    pow256(k as nat + 1) == 256 * pow256(k as nat),
            ;
        }
        out.push((cur % 256) as u8);
        cur = cur / 256;
        k = k + 1;
        assert(out@.subrange(0, start) =~= old(out)@);
    }
}

} // verus!
