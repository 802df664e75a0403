//! Exp-Golomb codes (as used by H.264 and H.265 headers): reading and
//! writing unsigned and signed values on bit readers and writers.
use vstd::prelude::*;
use vstd::arithmetic::power2::{pow2, lemma2_to64, lemma2_to64_rest, lemma_pow2_unfold, lemma_pow2_pos};
use crate::bits::{bits_value, u64_bits, zeros};
use crate::bit_reader::{BitReader, ReaderView};
use crate::bit_writer::{BitWriter, WriterView};
use crate::error::IoError;

verus! {

/// The position of the first set bit of `s`, or `s.len()` when there is none.
pub open spec fn first_one(s: Seq<bool>) -> nat
    decreases s.len(),
{
    if s.len() == 0 {
        0
    } else if s[0] {
        0
    } else {
        1 + first_one(s.drop_first())
    }
}

/// `floor(log2(x))` for `x >= 1`.
pub open spec fn ilog2(x: nat) -> nat
    decreases x,
{
    if x <= 1 {
        0
    } else {
        1 + ilog2(x / 2)
    }
}

/// The Exp-Golomb code of `n`: `k` zero bits followed by the `k + 1` bits of
/// `n + 1`, where `k` is `floor(log2(n + 1))`.
pub open spec fn exp_golomb_bits(n: u64) -> Seq<bool>
    recommends
        n < u64::MAX,
{
    let k = ilog2((n + 1) as nat);
    zeros(k) + u64_bits((n + 1) as u64, k + 1)
}

/// Decodes an Exp-Golomb code at the start of `s`: the value (modulo 2^64)
/// and the number of bits it takes, or `None` when `s` ends too early.
pub open spec fn exp_golomb_decode(s: Seq<bool>) -> Option<(u64, nat)> {
    let k = first_one(s);
    if 2 * k + 1 <= s.len() {
        let payload = s.subrange((k + 1) as int, (2 * k + 1) as int);
        Some((((pow2(k) + bits_value(payload) - 1) as nat % pow2(64)) as u64, 2 * k + 1))
    } else {
        None
    }
}

/// The signed value that the unsigned Exp-Golomb value `e` stands for:
/// 0, 1, -1, 2, -2, ...
pub open spec fn signed_of(e: int) -> int {
    if e % 2 == 0 {
        -(e / 2)
    } else {
        e / 2 + 1
    }
}

/// `signed_of(e)` as a 64-bit value; the one value that does not fit
/// (for `e == u64::MAX`) wraps around to `i64::MIN`.
pub open spec fn signed_value(e: u64) -> i64 {
    if signed_of(e as int) <= i64::MAX {
        signed_of(e as int) as i64
    } else {
        i64::MIN
    }
}

/// The unsigned Exp-Golomb value that stands for the signed value `n`.
pub open spec fn unsigned_of(n: int) -> int {
    if n <= 0 {
        -2 * n
    } else {
        2 * n - 1
    }
}

proof fn lemma_first_one_prefix(s: Seq<bool>, i: nat)
    requires
        i <= s.len(),
        forall|j: int| 0 <= j < i ==> !s[j],
    ensures
        first_one(s) >= i,
        first_one(s) == i + first_one(s.skip(i as int)),
    decreases i,
{
    if i > 0 {
        let t = s.drop_first();
        assert forall|j: int| 0 <= j < i - 1 implies !t[j] by {
            assert(t[j] == s[j + 1]);
        }
        lemma_first_one_prefix(t, (i - 1) as nat);
        assert(t.skip((i - 1) as int) =~= s.skip(i as int));
    } else {
        assert(s.skip(0) =~= s);
    }
}

proof fn lemma_first_one_at(s: Seq<bool>, i: nat)
    requires
        i < s.len(),
        s[i as int],
        forall|j: int| 0 <= j < i ==> !s[j],
    ensures
        first_one(s) == i,
{
    lemma_first_one_prefix(s, i);
    assert(s.skip(i as int)[0]);
}

proof fn lemma_first_one_none(s: Seq<bool>)
    requires
        forall|j: int| 0 <= j < s.len() ==> !s[j],
    ensures
        first_one(s) == s.len(),
{
    lemma_first_one_prefix(s, s.len());
    assert(s.skip(s.len() as int).len() == 0);
}

/// `2^ilog2(x) <= x < 2^(ilog2(x) + 1)`.
pub proof fn lemma_ilog2_bounds(x: nat)
    requires
        x >= 1,
    ensures
        pow2(ilog2(x)) <= x < pow2(ilog2(x) + 1),
    decreases x,
{
    lemma2_to64();
    if x > 1 {
        lemma_ilog2_bounds(x / 2);
        lemma_pow2_unfold(ilog2(x / 2) + 1);
        lemma_pow2_unfold(ilog2(x / 2) + 2);
    }
}

/// Decoding an encoded value gives the value back, whatever follows it.
pub proof fn lemma_exp_golomb_roundtrip(n: u64, rest: Seq<bool>)
    requires
        n < u64::MAX,
    ensures
        exp_golomb_decode(exp_golomb_bits(n) + rest) == Some((n, exp_golomb_bits(n).len())),
{
    let x = (n + 1) as nat;
    let k = ilog2(x);
    lemma_ilog2_bounds(x);
    lemma2_to64();
    lemma2_to64_rest();
    assert(k < 64) by {
        if k >= 64 {
            vstd::arithmetic::power2::lemma_pow2_strictly_increases(64, k);
        }
    }
    let code = exp_golomb_bits(n);
    let s = code + rest;
    let ub = u64_bits(x as u64, k + 1);
    crate::bits::lemma_u64_bits_value(x as u64, k + 1);
    assert(x % pow2(k + 1) == x) by {
        vstd::arithmetic::div_mod::lemma_small_mod(x, pow2(k + 1));
    }
    // The leading bit of `n + 1` in `k + 1` bits is set.
    assert(ub[0]) by {
        let hi = ub.take(1);
        let lo = ub.skip(1);
        assert(ub =~= hi + lo);
        crate::bits::lemma_bits_value_concat(hi, lo);
        crate::bits::lemma_bits_value_bound(lo);
        assert(lo.len() == k);
        if !ub[0] {
            assert(hi =~= Seq::<bool>::empty().push(false));
            crate::bits::lemma_bits_value_push(Seq::<bool>::empty(), false);
            assert(bits_value(hi) == 0);
            assert(bits_value(ub) == bits_value(lo));
            assert(false);
        }
    }
    assert forall|j: int| 0 <= j < k implies !s[j] by {}
    assert(s[k as int] == ub[0]);
    lemma_first_one_at(s, k);
    let payload = s.subrange((k + 1) as int, (2 * k + 1) as int);
    assert(payload =~= ub.skip(1));
    assert(bits_value(payload) == x - pow2(k)) by {
        assert(ub == seq![true] + ub.skip(1));
        crate::bits::lemma_bits_value_concat(seq![true], ub.skip(1));
        assert(bits_value(seq![true]) == 1) by {
            assert(seq![true] =~= Seq::<bool>::empty().push(true));
            crate::bits::lemma_bits_value_push(Seq::<bool>::empty(), true);
        }
    }
    assert((pow2(k) + bits_value(payload) - 1) as nat % pow2(64) == n) by {
        vstd::arithmetic::div_mod::lemma_small_mod(n as nat, pow2(64));
    }
}

/// Signed values survive the mapping to unsigned values and back.
pub proof fn lemma_signed_roundtrip(n: int)
    ensures
        unsigned_of(n) >= 0,
        signed_of(unsigned_of(n)) == n,
{
    if n <= 0 {
        assert((-2 * n) % 2 == 0);
        assert((-2 * n) / 2 == -n);
    } else {
        assert((2 * n - 1) % 2 == 1);
        assert((2 * n - 1) / 2 == n - 1);
    }
}

/// Reads an unsigned Exp-Golomb value. Fails when the bits run out; the
/// reader is then at the end of its data. The value is taken modulo 2^64.
pub fn read_exp_golomb(reader: &mut BitReader) -> (r: Result<u64, IoError>)
    requires
        old(reader)@.wf(),
    ensures
        final(reader)@.wf(),
        match exp_golomb_decode(old(reader)@.upcoming()) {
            Some((v, c)) => r == Ok::<u64, IoError>(v) && final(reader)@ == old(reader)@.after_read(c),
            None => r == Err::<u64, IoError>(IoError::UnexpectedEof) && final(reader)@ == old(reader)@.at_end(),
        },
{
    let ghost v = reader@;
    let ghost up = v.upcoming();
    proof {
        crate::bit_reader::lemma_after_read_zero(v);
        lemma2_to64();
        lemma2_to64_rest();
    }
    let mut leading_zeros: u128 = 0;
    loop
        invariant_except_break
            v == old(reader)@,
            v.wf(),
            up == v.upcoming(),
            leading_zeros <= up.len(),
            forall|j: int| 0 <= j < leading_zeros ==> !up[j],
            reader@ == v.after_read(leading_zeros as nat),
            reader@.wf(),
        ensures
            leading_zeros < up.len(),
            up[leading_zeros as int],
            forall|j: int| 0 <= j < leading_zeros ==> !up[j],
            reader@ == v.after_read((leading_zeros + 1) as nat),
            reader@.wf(),
        decreases up.len() - leading_zeros,
    {
        proof {
            crate::bit_reader::lemma_upcoming_after_read(v, leading_zeros as nat);
            crate::bit_reader::lemma_after_read_compose(v, leading_zeros as nat, 1);
            crate::bit_reader::lemma_upcoming_len_bound(v);
        }
        let res = reader.read_bit();
        match res {
            Ok(bit) => {
                if bit {
                    break;
                }
                leading_zeros = leading_zeros + 1;
            },
            Err(e) => {
                proof {
                    assert(up.len() == leading_zeros);
                    lemma_first_one_none(up);
                    assert(reader@ == v.at_end());
                }
                return Err(e);
            },
        }
    }
    let ghost k = leading_zeros as nat;
    proof {
        lemma_first_one_at(up, k);
    }
    let mut result: u64 = 1;
    let mut i: u128 = 0;
    proof {
        assert(up.subrange((k + 1) as int, (k + 1) as int) =~= Seq::<bool>::empty());
        vstd::arithmetic::div_mod::lemma_small_mod(1, pow2(64));
        assert(pow2(0) == 1);
    }
    while i < leading_zeros
        invariant
            v == old(reader)@,
            v.wf(),
            up == v.upcoming(),
            k == leading_zeros,
            k == first_one(up),
            k < up.len(),
            i <= k,
            k + 1 + i <= up.len(),
            reader@ == v.after_read((k + 1 + i) as nat),
            reader@.wf(),
            result as nat == (pow2(i as nat) + bits_value(up.subrange((k + 1) as int, (k + 1 + i) as int))) % pow2(64),
        decreases k - i,
    {
        proof {
            lemma2_to64();
            lemma2_to64_rest();
            crate::bit_reader::lemma_upcoming_after_read(v, (k + 1 + i) as nat);
            crate::bit_reader::lemma_after_read_compose(v, (k + 1 + i) as nat, 1);
        }
        let res = reader.read_bit();
        let bit = match res {
            Ok(b) => b,
            Err(e) => {
                proof {
                    assert(up.len() == k + 1 + i);
                    assert(reader@ == v.at_end());
                }
                return Err(e);
            },
        };
        let ghost old_result = result;
        let b: u64 = if bit { 1 } else { 0 };
        result = (result << 1u64) | b;
        proof {
            let m = pow2(64);
            let sub = up.subrange((k + 1) as int, (k + 1 + i) as int);
            let y = pow2(i as nat) + bits_value(sub);
            assert(up.subrange((k + 1) as int, (k + 2 + i) as int) =~= sub.push(bit));
            crate::bits::lemma_bits_value_push(sub, bit);
            lemma_pow2_unfold((i + 1) as nat);
            assert(pow2((i + 1) as nat) + bits_value(sub.push(bit)) == 2 * y + b);
            assert(result as int == if old_result < 0x8000_0000_0000_0000u64 { 2 * old_result + b } else { 2 * old_result + b - 0x1_0000_0000_0000_0000 }) by (bit_vector)
                requires result == (old_result << 1u64) | b, b <= 1;
            lemma_pow2_pos(i as nat);
            vstd::arithmetic::div_mod::lemma_fundamental_div_mod(y as int, m as int);
            let q = y as int / m as int;
            if old_result < 0x8000_0000_0000_0000u64 {
                vstd::arithmetic::div_mod::lemma_fundamental_div_mod_converse((2 * y + b) as int, m as int, (2 * q) as int, result as int);
            } else {
                vstd::arithmetic::div_mod::lemma_fundamental_div_mod_converse((2 * y + b) as int, m as int, (2 * q + 1) as int, result as int);
            }
        }
        i = i + 1;
    }
    proof {
        let m = pow2(64);
        let y = pow2(k) + bits_value(up.subrange((k + 1) as int, (2 * k + 1) as int));
        lemma_pow2_pos(k);
        if result == 0 {
            assert(((y - 1) as nat) % m == (m - 1) as nat) by {
                vstd::arithmetic::div_mod::lemma_fundamental_div_mod(y as int, m as int);
                vstd::arithmetic::div_mod::lemma_fundamental_div_mod_converse((y - 1) as int, m as int, (y as int / m as int - 1) as int, (m - 1) as int);
            }
        } else {
            assert(((y - 1) as nat) % m == result - 1) by {
                vstd::arithmetic::div_mod::lemma_fundamental_div_mod(y as int, m as int);
                vstd::arithmetic::div_mod::lemma_fundamental_div_mod_converse((y - 1) as int, m as int, y as int / m as int, (result - 1) as int);
            }
        }
    }
    Ok(result.wrapping_sub(1))
}

/// Reads a signed Exp-Golomb value (0, 1, -1, 2, -2, ... for the unsigned
/// values 0, 1, 2, 3, 4, ...), taken modulo 2^64.
pub fn read_signed_exp_golomb(reader: &mut BitReader) -> (r: Result<i64, IoError>)
    requires
        old(reader)@.wf(),
    ensures
        final(reader)@.wf(),
        match exp_golomb_decode(old(reader)@.upcoming()) {
            Some((v, c)) => r == Ok::<i64, IoError>(signed_value(v)) && final(reader)@ == old(reader)@.after_read(c),
            None => r == Err::<i64, IoError>(IoError::UnexpectedEof) && final(reader)@ == old(reader)@.at_end(),
        },
{
    let exp_glob = match read_exp_golomb(reader) {
        Ok(e) => e,
        Err(e) => return Err(e),
    };
    if exp_glob % 2 == 0 {
        Ok(-((exp_glob / 2) as i64))
    } else {
        Ok(((exp_glob / 2) as i64).wrapping_add(1))
    }
}

/// Writes `input` as an unsigned Exp-Golomb value.
pub fn write_exp_golomb<const B: usize>(writer: &mut BitWriter<B>, input: u64) -> (r: Result<(), IoError>)
    requires
        old(writer).wf(),
        input < u64::MAX,
    ensures
        final(writer).wf(),
        r is Ok,
        final(writer)@ == old(writer)@.after_write_bits(exp_golomb_bits(input)),
{
    let ghost x = (input + 1) as nat;
    let mut number = input + 1;
    let mut leading_zeros: usize = 0;
    proof {
        lemma2_to64();
        lemma2_to64_rest();
        assert(x / 1 == x);
    }
    while number > 1
        invariant
            input < u64::MAX,
            x == input + 1,
            number >= 1,
            number as nat == x / pow2(leading_zeros as nat),
            ilog2(x) == leading_zeros + ilog2(number as nat),
            pow2(leading_zeros as nat) <= x,
            leading_zeros < 64,
        decreases number,
    {
        proof {
            lemma_pow2_pos(leading_zeros as nat);
            lemma_pow2_unfold((leading_zeros + 1) as nat);
            vstd::arithmetic::div_mod::lemma_div_denominator(x as int, pow2(leading_zeros as nat) as int, 2);
            assert(number / 2 >= 1);
            assert(pow2((leading_zeros + 1) as nat) <= x) by {
                vstd::arithmetic::div_mod::lemma_fundamental_div_mod(x as int, pow2(leading_zeros as nat) as int);
                vstd::arithmetic::mul::lemma_mul_inequality(2, number as int, pow2(leading_zeros as nat) as int);
            }
            lemma2_to64();
            lemma2_to64_rest();
            if leading_zeros + 1 > 64 {
                vstd::arithmetic::power2::lemma_pow2_strictly_increases(64, (leading_zeros + 1) as nat);
            }
            assert(leading_zeros + 1 < 64) by {
                if leading_zeros + 1 >= 64 {
                    assert(pow2((leading_zeros + 1) as nat) >= pow2(64));
                    assert(x <= u64::MAX);
                    assert(pow2(64) == 0x1_0000_0000_0000_0000);
                    assert(false);
                }
            }
        }
        assert(number >> 1u64 == number / 2) by (bit_vector);
        number = number >> 1u64;
        leading_zeros = leading_zeros + 1;
    }
    let ghost k = leading_zeros as nat;
    proof {
        assert(ilog2(1) == 0);
        assert(k == ilog2(x));
    }
    let mut i: usize = 0;
    proof {
        assert(zeros(0) =~= Seq::<bool>::empty());
    }
    while i < leading_zeros
        invariant
            writer.wf(),
            i <= leading_zeros,
            writer@ == old(writer)@.after_write_bits(zeros(i as nat)),
        decreases leading_zeros - i,
    {
        proof {
            assert(zeros((i + 1) as nat).drop_last() =~= zeros(i as nat));
        }
        let _ = writer.write_bit(false);
        i = i + 1;
    }
    let _ = writer.write_bits(input + 1, leading_zeros + 1);
    proof {
        crate::bit_writer::lemma_write_bits_concat(old(writer)@, zeros(k), u64_bits(x as u64, k + 1));
    }
    Ok(())
}

/// Writes `number` as a signed Exp-Golomb value.
pub fn write_signed_exp_golomb<const B: usize>(writer: &mut BitWriter<B>, number: i64) -> (r: Result<(), IoError>)
    requires
        old(writer).wf(),
        number != i64::MIN,
    ensures
        final(writer).wf(),
        r is Ok,
        final(writer)@ == old(writer)@.after_write_bits(exp_golomb_bits(unsigned_of(number as int) as u64)),
{
    let n = if number <= 0 {
        (-number) as u64 * 2
    } else {
        number as u64 * 2 - 1
    };
    write_exp_golomb(writer, n)
}

} // verus!
