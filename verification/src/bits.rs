//! Mathematical model of bit sequences: how bytes unpack into bits (most
//! significant bit first) and how a run of bits denotes a number.
use vstd::prelude::*;
use vstd::arithmetic::power2::{pow2, lemma_pow2_unfold, lemma_pow2_pos};
use vstd::arithmetic::div_mod::{lemma_mod_breakdown, lemma_fundamental_div_mod_converse, lemma_small_mod};

verus! {

/// Bit `i` (0 = most significant) of the byte `b`.
pub open spec fn byte_bit(b: u8, i: int) -> bool {
    (b >> ((7 - i) as u8)) & 1u8 == 1u8
}

/// The eight bits of a byte, most significant first.
pub open spec fn byte_to_bits(b: u8) -> Seq<bool> {
    Seq::new(8, |i: int| byte_bit(b, i))
}

/// The bits of a byte sequence, each byte most significant bit first.
pub open spec fn bytes_to_bits(s: Seq<u8>) -> Seq<bool> {
    Seq::new(8 * s.len(), |i: int| byte_bit(s[i / 8], i % 8))
}

/// The number that a run of bits denotes, most significant bit first.
pub open spec fn bits_value(s: Seq<bool>) -> nat
    decreases s.len(),
{
    if s.len() == 0 {
        0
    } else {
        2 * bits_value(s.drop_last()) + if s.last() { 1nat } else { 0nat }
    }
}

/// Bit `k` (0 = least significant) of a 64-bit value; false beyond bit 63.
pub open spec fn u64_bit(v: u64, k: int) -> bool {
    0 <= k < 64 && (v >> (k as u64)) & 1u64 == 1u64
}

/// The lowest `n` bits of `v`, most significant first.
pub open spec fn u64_bits(v: u64, n: nat) -> Seq<bool> {
    Seq::new(n, |i: int| u64_bit(v, n - 1 - i))
}

/// A run of `n` zero bits.
pub open spec fn zeros(n: nat) -> Seq<bool> {
    Seq::new(n, |i: int| false)
}

/// Number of zero bits needed to bring `n` bits up to a byte boundary.
pub open spec fn pad_len(n: nat) -> nat {
    if n % 8 == 0 { 0 } else { (8 - n % 8) as nat }
}

/// The bytes whose bits are exactly `s` (`s.len()` is a multiple of 8).
pub open spec fn bits_to_bytes(s: Seq<bool>) -> Seq<u8>
    recommends
        s.len() % 8 == 0,
{
    Seq::new(s.len() / 8, |i: int| bits_value(s.subrange(8 * i, 8 * i + 8)) as u8)
}

/// Unpacking a non-empty byte sequence gives the bits of its first byte
/// followed by the bits of the rest.
pub proof fn lemma_bytes_to_bits_cons(s: Seq<u8>)
    requires
        s.len() > 0,
    ensures
        bytes_to_bits(s) == byte_to_bits(s[0]) + bytes_to_bits(s.skip(1)),
{
    let l = bytes_to_bits(s);
    let r = byte_to_bits(s[0]) + bytes_to_bits(s.skip(1));
    assert forall|i: int| 0 <= i < l.len() implies l[i] == r[i] by {
        if i >= 8 {
            assert((i - 8) / 8 == i / 8 - 1);
            assert((i - 8) % 8 == i % 8);
        }
    }
    assert(l =~= r);
}

/// Unpacking distributes over concatenation.
pub proof fn lemma_bytes_to_bits_concat(a: Seq<u8>, b: Seq<u8>)
    ensures
        bytes_to_bits(a + b) == bytes_to_bits(a) + bytes_to_bits(b),
{
    let l = bytes_to_bits(a + b);
    let r = bytes_to_bits(a) + bytes_to_bits(b);
    assert forall|i: int| 0 <= i < l.len() implies l[i] == r[i] by {
        if i >= 8 * a.len() {
            let j = i - 8 * a.len();
            assert(j / 8 == i / 8 - a.len()) by {
                lemma_fundamental_div_mod_converse(i, 8, j / 8 + a.len(), j % 8);
            }
            assert(j % 8 == i % 8) by {
                lemma_fundamental_div_mod_converse(i, 8, j / 8 + a.len(), j % 8);
            }
        }
    }
    assert(l =~= r);
}

/// Unpacking the bytes after the first `k` drops the first `8 * k` bits.
pub proof fn lemma_bytes_to_bits_skip(s: Seq<u8>, k: int)
    requires
        0 <= k <= s.len(),
    ensures
        bytes_to_bits(s.skip(k)) == bytes_to_bits(s).skip(8 * k),
{
    assert(s == s.take(k) + s.skip(k));
    lemma_bytes_to_bits_concat(s.take(k), s.skip(k));
    assert(bytes_to_bits(s).skip(8 * k) =~= bytes_to_bits(s.skip(k)));
}

/// The value of a prefix extended by one bit.
pub proof fn lemma_bits_value_push(s: Seq<bool>, b: bool)
    ensures
        bits_value(s.push(b)) == 2 * bits_value(s) + if b { 1nat } else { 0nat },
{
    assert(s.push(b).drop_last() =~= s);
}

/// The value of the first `i + 1` bits, from the value of the first `i`.
pub proof fn lemma_bits_value_take_step(s: Seq<bool>, i: int)
    requires
        0 <= i < s.len(),
    ensures
        bits_value(s.take(i + 1)) == 2 * bits_value(s.take(i)) + if s[i] { 1nat } else { 0nat },
{
    assert(s.take(i + 1) =~= s.take(i).push(s[i]));
    lemma_bits_value_push(s.take(i), s[i]);
}

/// `n` bits denote a number below `2^n`.
pub proof fn lemma_bits_value_bound(s: Seq<bool>)
    ensures
        bits_value(s) < pow2(s.len()),
    decreases s.len(),
{
    if s.len() == 0 {
        vstd::arithmetic::power2::lemma2_to64();
    } else {
        lemma_bits_value_bound(s.drop_last());
        lemma_pow2_unfold(s.len());
    }
}

/// A run of zero bits denotes zero.
pub proof fn lemma_bits_value_zeros(n: nat)
    ensures
        bits_value(zeros(n)) == 0,
    decreases n,
{
    if n > 0 {
        assert(zeros(n).drop_last() =~= zeros((n - 1) as nat));
        lemma_bits_value_zeros((n - 1) as nat);
    }
}

/// Leading zero bits do not change the value.
pub proof fn lemma_bits_value_leading_zeros(k: nat, s: Seq<bool>)
    ensures
        bits_value(zeros(k) + s) == bits_value(s),
    decreases s.len(),
{
    if s.len() == 0 {
        assert(zeros(k) + s =~= zeros(k));
        lemma_bits_value_zeros(k);
    } else {
        assert((zeros(k) + s).drop_last() =~= zeros(k) + s.drop_last());
        lemma_bits_value_leading_zeros(k, s.drop_last());
    }
}

/// Value of a concatenation: the high part is shifted by the length of the low part.
pub proof fn lemma_bits_value_concat(a: Seq<bool>, b: Seq<bool>)
    ensures
        bits_value(a + b) == bits_value(a) * pow2(b.len()) + bits_value(b),
    decreases b.len(),
{
    if b.len() == 0 {
        assert(a + b =~= a);
        vstd::arithmetic::power2::lemma2_to64();
        assert(bits_value(a) * pow2(0) == bits_value(a));
    } else {
        assert((a + b).drop_last() =~= a + b.drop_last());
        lemma_bits_value_concat(a, b.drop_last());
        lemma_pow2_unfold(b.len());
        let p = pow2((b.len() - 1) as nat);
        let va = bits_value(a);
        assert(2 * (va * p) == va * (2 * p)) by (nonlinear_arith);
        let ab = a + b;
        assert(ab.last() == b.last());
        assert(bits_value(ab) == 2 * bits_value(ab.drop_last()) + if ab.last() { 1nat } else { 0nat });
        assert(bits_value(b) == 2 * bits_value(b.drop_last()) + if b.last() { 1nat } else { 0nat });
        assert(bits_value(ab.drop_last()) == va * p + bits_value(b.drop_last()));
        assert(pow2(b.len()) == 2 * p);
        assert(va * pow2(b.len()) == 2 * (va * p));
    }
}

/// The lowest `n` bits of `v` denote `v mod 2^n`.
pub proof fn lemma_u64_bits_value(v: u64, n: nat)
    requires
        n <= 64,
    ensures
        bits_value(u64_bits(v, n)) == v as nat % pow2(n),
    decreases n,
{
    if n == 0 {
        vstd::arithmetic::power2::lemma2_to64();
    } else {
        let m = (n - 1) as nat;
        let h = v >> 1u64;
        assert(u64_bits(v, n).drop_last() =~= u64_bits(h, m)) by {
            assert forall|i: int| 0 <= i < m implies #[trigger] u64_bits(v, n)[i] == u64_bits(h, m)[i] by {
                let k = (m - 1 - i) as u64;
                assert(k < 63);
                assert((v >> 1u64) >> k == v >> ((k + 1) as u64)) by (bit_vector)
                    requires k < 63;
            }
        }
        lemma_u64_bits_value(h, m);
        assert(u64_bits(v, n).last() == (v & 1u64 == 1u64)) by {
            assert(v >> 0u64 == v) by (bit_vector);
        }
        assert(h == v / 2 && (v & 1u64) == v % 2) by (bit_vector)
            requires h == v >> 1u64;
        lemma_pow2_unfold(n);
        lemma_pow2_pos(m);
        lemma_mod_breakdown(v as int, 2, pow2(m) as int);
    }
}

/// Reading `n` bits back gives the same bits when the value fits.
pub proof fn lemma_u64_bits_of_value(s: Seq<bool>)
    requires
        s.len() <= 64,
    ensures
        bits_value(s) < pow2(s.len()),
        u64_bits(bits_value(s) as u64, s.len()) == s,
    decreases s.len(),
{
    lemma_bits_value_bound(s);
    vstd::arithmetic::power2::lemma2_to64();
    vstd::arithmetic::power2::lemma2_to64_rest();
    if s.len() > 0 {
        let t = s.drop_last();
        lemma_u64_bits_of_value(t);
        let n = s.len();
        let vt = bits_value(t);
        let v = bits_value(s);
        lemma_pow2_unfold(n);
        assert(pow2(t.len()) <= pow2(63)) by {
            if t.len() < 63 {
                vstd::arithmetic::power2::lemma_pow2_strictly_increases(t.len(), 63);
            }
        }
        let vu = v as u64;
        let vtu = vt as u64;
        let b: u64 = if s.last() { 1 } else { 0 };
        assert(vu == 2 * vtu + b);
        assert(vu >> 1u64 == vtu && (vu & 1u64 == 1u64) == (b == 1)) by (bit_vector)
            requires vu == 2 * vtu + b, b <= 1, vtu < 0x8000_0000_0000_0000u64;
        let l = u64_bits(vu, n);
        assert forall|i: int| 0 <= i < n implies l[i] == s[i] by {
            if i < n - 1 {
                let k = (n - 2 - i) as u64;
                assert((vu >> 1u64) >> k == vu >> ((k + 1) as u64)) by (bit_vector)
                    requires k < 63;
                assert(u64_bits(vtu, t.len())[i] == t[i]);
            } else {
                assert(vu >> 0u64 == vu) by (bit_vector);
            }
        }
        assert(l =~= s);
    }
}

} // verus!

verus! {

/// The bit helpers for bytes agree with those for 64-bit values.
pub proof fn lemma_byte_bits_u64(b: u8)
    ensures
        byte_to_bits(b) == u64_bits(b as u64, 8),
{
    assert forall|i: int| 0 <= i < 8 implies #[trigger] byte_to_bits(b)[i] == u64_bits(b as u64, 8)[i] by {
        let k = (7 - i) as u8;
        let w = b as u64;
        assert(((b >> k) & 1u8 == 1u8) == (((w >> (k as u64)) & 1u64) == 1u64)) by (bit_vector)
            requires k < 8, w == b as u64;
    }
    assert(byte_to_bits(b) =~= u64_bits(b as u64, 8));
}

/// The bits of a byte denote that byte.
pub proof fn lemma_byte_bits_value(b: u8)
    ensures
        bits_value(byte_to_bits(b)) == b,
{
    lemma_byte_bits_u64(b);
    lemma_u64_bits_value(b as u64, 8);
    vstd::arithmetic::power2::lemma2_to64();
}

/// Eight bits make the byte whose bits they are.
pub proof fn lemma_byte_of_bits(s: Seq<bool>)
    requires
        s.len() == 8,
    ensures
        bits_value(s) < 256,
        byte_to_bits(bits_value(s) as u8) == s,
{
    lemma_u64_bits_of_value(s);
    vstd::arithmetic::power2::lemma2_to64();
    lemma_byte_bits_u64(bits_value(s) as u8);
}

/// Packing bits into bytes and unpacking them gives the same bits.
pub proof fn lemma_bits_to_bytes_to_bits(s: Seq<bool>)
    requires
        s.len() % 8 == 0,
    ensures
        bytes_to_bits(bits_to_bytes(s)) == s,
{
    let bs = bits_to_bytes(s);
    let l = bytes_to_bits(bs);
    assert(l.len() == s.len()) by {
        vstd::arithmetic::div_mod::lemma_fundamental_div_mod(s.len() as int, 8);
    }
    assert forall|i: int| 0 <= i < s.len() implies #[trigger] l[i] == s[i] by {
        let t = i / 8;
        let m = i % 8;
        vstd::arithmetic::div_mod::lemma_fundamental_div_mod(i, 8);
        assert(8 * t + 8 <= s.len()) by {
            vstd::arithmetic::div_mod::lemma_fundamental_div_mod(s.len() as int, 8);
        }
        let sub = s.subrange(8 * t, 8 * t + 8);
        lemma_byte_of_bits(sub);
        assert(bs[t] == bits_value(sub) as u8);
        assert(byte_to_bits(bs[t])[m] == sub[m]);
    }
    assert(l =~= s);
}

/// Unpacking bytes and packing the bits gives the same bytes.
pub proof fn lemma_bytes_to_bits_to_bytes(s: Seq<u8>)
    ensures
        bytes_to_bits(s).len() % 8 == 0,
        bits_to_bytes(bytes_to_bits(s)) == s,
{
    let b = bytes_to_bits(s);
    let l = bits_to_bytes(b);
    assert(l.len() == s.len());
    assert forall|t: int| 0 <= t < s.len() implies #[trigger] l[t] == s[t] by {
        let sub = b.subrange(8 * t, 8 * t + 8);
        assert forall|m: int| 0 <= m < 8 implies #[trigger] sub[m] == byte_to_bits(s[t])[m] by {
            assert((8 * t + m) / 8 == t) by {
                vstd::arithmetic::div_mod::lemma_fundamental_div_mod_converse(8 * t + m, 8, t, m);
            }
            assert((8 * t + m) % 8 == m) by {
                vstd::arithmetic::div_mod::lemma_fundamental_div_mod_converse(8 * t + m, 8, t, m);
            }
        }
        assert(sub =~= byte_to_bits(s[t]));
        lemma_byte_bits_value(s[t]);
    }
    assert(l =~= s);
}

/// Packing distributes over concatenation of whole bytes.
pub proof fn lemma_bits_to_bytes_concat(a: Seq<bool>, b: Seq<bool>)
    requires
        a.len() % 8 == 0,
        b.len() % 8 == 0,
    ensures
        bits_to_bytes(a + b) == bits_to_bytes(a) + bits_to_bytes(b),
{
    lemma_bits_to_bytes_to_bits(a);
    lemma_bits_to_bytes_to_bits(b);
    lemma_bytes_to_bits_concat(bits_to_bytes(a), bits_to_bytes(b));
    lemma_bytes_to_bits_to_bytes(bits_to_bytes(a) + bits_to_bytes(b));
}

} // verus!
