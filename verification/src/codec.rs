//! Little-endian byte encoding of unsigned integers, the ground layer of the
//! fixed account layouts: a spec-level encoding and decoding pair with a
//! proved round trip, and executable writers and readers proved against it.

use vstd::prelude::*;

verus! {

/// 256 raised to `n`.
pub open spec fn pow256(n: nat) -> nat
    decreases n,
{
    if n == 0 {
        1
    } else {
        256 * pow256((n - 1) as nat)
    }
}

/// The `n` little-endian bytes of `x` (that is, of `x` modulo `pow256(n)`).
pub open spec fn le_bytes(x: nat, n: nat) -> Seq<u8>
    decreases n,
{
    if n == 0 {
        Seq::empty()
    } else {
        seq![(x % 256) as u8] + le_bytes(x / 256, (n - 1) as nat)
    }
}

/// The value a little-endian byte string denotes.
pub open spec fn le_value(s: Seq<u8>) -> nat
    decreases s.len(),
{
    if s.len() == 0 {
        0
    } else {
        s[0] as nat + 256 * le_value(s.subrange(1, s.len() as int))
    }
}

pub proof fn lemma_pow256_pos(n: nat)
    ensures
        pow256(n) >= 1,
    decreases n,
{
    if n > 0 {
        lemma_pow256_pos((n - 1) as nat);
    }
}

/// The concrete size of an eight-byte word.
pub proof fn lemma_pow256_8()
    ensures
        pow256(8) == 0x1_0000_0000_0000_0000,
{
    reveal_with_fuel(pow256, 9);
}

pub proof fn lemma_le_bytes_len(x: nat, n: nat)
    ensures
        le_bytes(x, n).len() == n,
    decreases n,
{
    if n > 0 {
        lemma_le_bytes_len(x / 256, (n - 1) as nat);
    }
}

/// A byte string of length `n` denotes a value below `pow256(n)`.
pub proof fn lemma_le_value_bound(s: Seq<u8>)
    ensures
        le_value(s) < pow256(s.len()),
    decreases s.len(),
{
    if s.len() > 0 {
        let t = s.subrange(1, s.len() as int);
        lemma_le_value_bound(t);
        assert(pow256(s.len()) == 256 * pow256((s.len() - 1) as nat));
    }
}

/// Round trip: decoding the `n` little-endian bytes of `x` yields `x` modulo `pow256(n)`.
pub proof fn lemma_le_round_trip(x: nat, n: nat)
    ensures
        le_value(le_bytes(x, n)) == x % pow256(n),
    decreases n,
{
    if n == 0 {
        vstd::arithmetic::div_mod::lemma_mod_bound(x as int, 1);
    } else {
        let m = (n - 1) as nat;
        let t = le_bytes(x / 256, m);
        lemma_le_bytes_len(x / 256, m);
        let s = le_bytes(x, n);
        assert(s == seq![(x % 256) as u8] + t);
        assert(s.subrange(1, s.len() as int) =~= t);
        lemma_le_round_trip(x / 256, m);
        lemma_pow256_pos(m);
        vstd::arithmetic::div_mod::lemma_mod_breakdown(x as int, 256, pow256(m) as int);
        assert(pow256(n) == 256 * pow256(m));
    }
}

/// Round trip at the word size used throughout the layouts.
pub proof fn lemma_le_u64_round_trip(x: u64)
    ensures
        le_bytes(x as nat, 8).len() == 8,
        le_value(le_bytes(x as nat, 8)) == x as nat,
{
    lemma_le_bytes_len(x as nat, 8);
    lemma_le_round_trip(x as nat, 8);
    lemma_pow256_8();
    vstd::arithmetic::div_mod::lemma_small_mod(x as nat, pow256(8));
}

/// The encoding is canonical: re-encoding the value a byte string denotes,
/// at the string's own length, yields the string back.
pub proof fn lemma_le_bytes_of_value(s: Seq<u8>)
    ensures
        le_bytes(le_value(s), s.len()) == s,
    decreases s.len(),
{
    if s.len() == 0 {
        assert(le_bytes(0, 0) =~= s);
    } else {
        let t = s.subrange(1, s.len() as int);
        let v = le_value(s);
        vstd::arithmetic::div_mod::lemma_fundamental_div_mod_converse(
            v as int,
            256,
            le_value(t) as int,
            s[0] as int,
        );
        lemma_le_bytes_of_value(t);
        assert(le_bytes(v, s.len()) == seq![(v % 256) as u8] + le_bytes(
            v / 256,
            (s.len() - 1) as nat,
        ));
        assert(seq![s[0]] + t =~= s);
    }
}

/// Eight bytes always decode inside the 64-bit range.
pub proof fn lemma_le_value_u64_fits(s: Seq<u8>, off: int)
    requires
        0 <= off,
        off + 8 <= s.len(),
    ensures
        le_value(s.subrange(off, off + 8)) < 0x1_0000_0000_0000_0000,
{
    lemma_le_value_bound(s.subrange(off, off + 8));
    lemma_pow256_8();
}

/// Append the eight little-endian bytes of `x`.
pub fn push_le_u64(out: &mut Vec<u8>, x: u64)
    ensures
        final(out)@ == old(out)@ + le_bytes(x as nat, 8),
{
    let ghost init = old(out)@;
    let mut v: u64 = x;
    let mut i: usize = 0;
    while i < 8
        invariant
            i <= 8,
            init + le_bytes(x as nat, 8) == out@ + le_bytes(v as nat, (8 - i) as nat),
        decreases 8 - i,
    {
        let b: u8 = (v % 256) as u8;
        proof {
            let rest = le_bytes(v as nat / 256, (8 - i - 1) as nat);
            assert(le_bytes(v as nat, (8 - i) as nat) == seq![b] + rest);
            assert((out@ + seq![b]) + rest =~= out@ + (seq![b] + rest));
        }
        out.push(b);
        v = v / 256;
        i = i + 1;
    }
    proof {
        assert(le_bytes(v as nat, 0) == Seq::<u8>::empty());
        assert(out@ + Seq::<u8>::empty() =~= out@);
    }
}

/// Read the value of the eight little-endian bytes starting at `off`.
pub fn read_le_u64(s: &Vec<u8>, off: usize) -> (r: u64)
    requires
        off + 8 <= s@.len(),
    ensures
        r as nat == le_value(s@.subrange(off as int, off as int + 8)),
{
    let n: usize = s.len();
    let mut r: u64 = 0;
    let mut i: usize = 8;
    while i > 0
        invariant
            i <= 8,
            off + 8 <= n,
            n == s@.len(),
            r as nat == le_value(s@.subrange(off + i, off as int + 8)),
        decreases i,
    {
        proof {
            let tail = s@.subrange(off + i, off as int + 8);
            lemma_le_value_bound(tail);
            lemma_pow256_mono((8 - i) as nat, 7);
            reveal_with_fuel(pow256, 8);
        }
        i = i - 1;
        let b: u8 = s[off + i];
        proof {
            let sub = s@.subrange(off + i, off as int + 8);
            assert(sub.len() == 8 - i);
            assert(sub[0] == s@[off + i]);
            assert(sub.subrange(1, sub.len() as int) =~= s@.subrange(off + i + 1, off as int + 8));
        }
        r = r * 256 + (b as u64);
    }
    proof {
        assert(s@.subrange(off + 0, off as int + 8) =~= s@.subrange(off as int, off as int + 8));
    }
    r
}

/// The powers of 256 grow with the exponent.
proof fn lemma_pow256_mono(a: nat, b: nat)
    requires
        a <= b,
    ensures
        pow256(a) <= pow256(b),
    decreases b,
{
    if a < b {
        lemma_pow256_mono(a, (b - 1) as nat);
        lemma_pow256_pos((b - 1) as nat);
        assert(pow256(b) == 256 * pow256((b - 1) as nat));
    }
}

} // verus!
