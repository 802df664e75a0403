//! Laws of bit reading and writing over whole runs of calls: where a
//! reader stands after a run of reads, and what a writer has handed over
//! and where it stands after a run of writes.
use vstd::prelude::*;
use crate::bits::{bits_to_bytes, bytes_to_bits};
use crate::bit_reader::{ReaderView, loads, lemma_after_read_zero, lemma_after_read_compose};
use crate::bit_writer::WriterView;

verus! {

/// The total number of bits of a run of reads of `ns[0]`, `ns[1]`, ... bits.
pub open spec fn total_bits(ns: Seq<nat>) -> nat
    decreases ns.len(),
{
    if ns.len() == 0 {
        0
    } else {
        total_bits(ns.drop_last()) + ns.last()
    }
}

/// The state after successful reads of `ns[0]`, `ns[1]`, ... bits, one after
/// another (each `read_bit`, `read_bits` or `align` is one such read).
pub open spec fn after_reads(v: ReaderView, ns: Seq<nat>) -> ReaderView
    decreases ns.len(),
{
    if ns.len() == 0 {
        v
    } else {
        after_reads(v, ns.drop_last()).after_read(ns.last())
    }
}

/// A run of reads is one read of all their bits.
pub proof fn lemma_after_reads_total(v: ReaderView, ns: Seq<nat>)
    requires
        v.wf(),
        total_bits(ns) <= v.upcoming().len(),
    ensures
        after_reads(v, ns) == v.after_read(total_bits(ns)),
    decreases ns.len(),
{
    if ns.len() == 0 {
        lemma_after_read_zero(v);
    } else {
        lemma_after_reads_total(v, ns.drop_last());
        lemma_after_read_compose(v, total_bits(ns.drop_last()), ns.last());
    }
}

/// After reads of `c` bits in all from a reader on a byte boundary, the
/// cursor has moved past every byte that was read from, a partly read byte
/// included (`c / 8` rounded up); the bit position is `c % 8`, so the reader
/// is aligned exactly when `c` is a multiple of 8; and the data is
/// untouched.
pub proof fn lemma_reads_position(v: ReaderView, ns: Seq<nat>)
    requires
        v.wf(),
        v.bit_pos == 0,
        total_bits(ns) <= v.upcoming().len(),
    ensures
        after_reads(v, ns).cursor.data == v.cursor.data,
        after_reads(v, ns).cursor.pos == v.cursor.pos + (total_bits(ns) + 7) / 8,
        after_reads(v, ns).bit_pos == total_bits(ns) % 8,
        after_reads(v, ns).bit_pos < 8,
        (after_reads(v, ns).bit_pos == 0) == (total_bits(ns) % 8 == 0),
{
    lemma_after_reads_total(v, ns);
    let c = total_bits(ns);
    assert(loads(0, c) == (c + 7) / 8);
}

/// The number of bits a writer of buffer size `capacity` (in bits) has
/// handed over after it was given `n` bits on an empty buffer: whole
/// buffers only.
pub open spec fn flushed_bits(capacity: nat, n: nat) -> nat {
    capacity * (n / capacity)
}

/// A writer hands its buffer over only when it is full: after the bits `s`
/// are written (by `write_bit`, `write_bits` or `align`) to a writer whose
/// buffer was empty, what it has handed over is what it had before followed
/// by the packed bytes of the longest prefix of `s` that fills whole
/// buffers, and the rest of `s` waits in the buffer.
pub proof fn lemma_flushed_prefix(w: WriterView, s: Seq<bool>)
    requires
        w.wf(),
        w.pending.len() == 0,
    ensures
        w.after_write_bits(s).written == w.written + bits_to_bytes(s.take(flushed_bits(w.capacity, s.len()) as int)),
        w.after_write_bits(s).pending == s.skip(flushed_bits(w.capacity, s.len()) as int),
        w.after_write_bits(s).capacity == w.capacity,
    decreases s.len(),
{
    let c = w.capacity;
    if s.len() == 0 {
        assert(flushed_bits(c, 0) == 0) by (nonlinear_arith)
            requires
                c > 0,
        ;
        assert(s.take(0) =~= Seq::<bool>::empty());
        assert(bits_to_bytes(Seq::<bool>::empty()) =~= Seq::<u8>::empty());
        assert(w.written + Seq::<u8>::empty() =~= w.written);
        assert(s.skip(0) =~= w.pending);
    } else {
        let t = s.drop_last();
        let b = s.last();
        lemma_flushed_prefix(w, t);
        let n = t.len();
        let q = n / c;
        let r = n % c;
        vstd::arithmetic::div_mod::lemma_fundamental_div_mod(n as int, c as int);
        let f = flushed_bits(c, n);
        assert(f == c * q);
        let mid = w.after_write_bits(t);
        assert(mid.pending.len() == r);
        let p = mid.pending.push(b);
        assert(p =~= s.skip(f as int)) by {
            assert(t.skip(f as int).push(b) =~= s.skip(f as int));
        }
        assert(t.take(f as int) =~= s.take(f as int));
        assert((c * q) % 8 == 0) by {
            let k = c / 8;
            vstd::arithmetic::div_mod::lemma_fundamental_div_mod(c as int, 8);
            assert(c * q == (k * q) * 8) by (nonlinear_arith)
                requires
                    c == 8 * k,
            ;
            vstd::arithmetic::div_mod::lemma_mod_multiples_basic((k * q) as int, 8);
        }
        if r + 1 == c {
            assert(s.len() / c == q + 1 && flushed_bits(c, s.len()) == c * q + c) by (nonlinear_arith)
                requires
                    s.len() == n + 1,
                    n == c * q + r,
                    r + 1 == c,
                    c > 0,
            ;
            assert(s.take(flushed_bits(c, s.len()) as int) =~= s.take(f as int) + p);
            assert(s.skip(flushed_bits(c, s.len()) as int) =~= Seq::<bool>::empty());
            crate::bits::lemma_bits_to_bytes_concat(s.take(f as int), p);
            assert(w.written + bits_to_bytes(s.take(f as int)) + bits_to_bytes(p)
                =~= w.written + bits_to_bytes(s.take(f as int) + p));
        } else {
            assert(r + 1 < c);
            assert(s.len() / c == q) by (nonlinear_arith)
                requires
                    s.len() == n + 1,
                    n == c * q + r,
                    r + 1 < c,
                    0 <= r,
                    c > 0,
            ;
        }
    }
}

/// A writer's bit position follows the number of bits it has been given:
/// for any writer, the bits waiting in its buffer, modulo 8, are the bits of
/// its whole stream modulo 8. So after a writer whose buffer was empty has
/// been given `s` (by writes of bits or bytes, aligning or flushing, each of
/// which appends to the stream or keeps it), `bit_pos` is `s.len() % 8`, and
/// it is aligned exactly when that is 0.
pub proof fn lemma_bit_pos_follows_stream(w0: WriterView, w: WriterView, s: Seq<bool>)
    requires
        w0.pending.len() == 0,
        w.stream() == w0.stream() + s,
    ensures
        w.pending.len() % 8 == s.len() % 8,
        w.pending.len() % 8 < 8,
        (w.pending.len() % 8 == 0) == (s.len() % 8 == 0),
{
    let a = w.written.len();
    let b = w0.written.len();
    assert(w.stream().len() == 8 * a + w.pending.len());
    assert(w0.stream().len() == 8 * b);
    assert(8 * a + w.pending.len() == 8 * b + s.len());
    assert(w.pending.len() % 8 == s.len() % 8) by (nonlinear_arith)
        requires
            8 * a + w.pending.len() == 8 * b + s.len(),
    ;
}

} // verus!
