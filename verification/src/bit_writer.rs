//! Writing individual bits, most significant bit of each byte first, to a
//! byte vector through a fixed-size buffer.
use vstd::prelude::*;
use crate::bits::{bits_value, byte_bit, byte_to_bits, bytes_to_bits, bits_to_bytes, u64_bits, u64_bit, zeros, pad_len};
use crate::error::IoError;

verus! {

/// The state of a [`BitWriter`] as the contracts see it.
pub struct WriterView {
    /// The bytes handed to the underlying writer so far.
    pub written: Seq<u8>,
    /// The bits held in the buffer that have not been handed over yet.
    pub pending: Seq<bool>,
    /// The size of the buffer, in bits.
    pub capacity: nat,
}

impl WriterView {
    /// The internal consistency that every writer keeps.
    pub open spec fn wf(self) -> bool {
        self.capacity > 0 && self.capacity % 8 == 0 && self.pending.len() < self.capacity
    }

    /// Every bit written so far, in order.
    pub open spec fn stream(self) -> Seq<bool> {
        bytes_to_bits(self.written) + self.pending
    }

    /// The state after writing one bit: the buffer is handed over as soon
    /// as it is full.
    pub open spec fn after_write_bit(self, bit: bool) -> WriterView {
        let p = self.pending.push(bit);
        if p.len() == self.capacity {
            WriterView { written: self.written + bits_to_bytes(p), pending: Seq::empty(), ..self }
        } else {
            WriterView { pending: p, ..self }
        }
    }

    /// The state after writing the bits `s` one after another.
    pub open spec fn after_write_bits(self, s: Seq<bool>) -> WriterView
        decreases s.len(),
    {
        if s.len() == 0 {
            self
        } else {
            self.after_write_bits(s.drop_last()).after_write_bit(s.last())
        }
    }

    /// The state after handing every complete buffered byte over.
    pub open spec fn after_flush(self) -> WriterView {
        let k = self.pending.len() / 8;
        WriterView {
            written: self.written + bits_to_bytes(self.pending.take((8 * k) as int)),
            pending: self.pending.skip((8 * k) as int),
            ..self
        }
    }

    /// The state after padding with zero bits up to a byte boundary.
    pub open spec fn after_align(self) -> WriterView {
        self.after_write_bits(zeros(pad_len(self.pending.len())))
    }
}

/// Writing a bit appends it to the stream.
pub proof fn lemma_write_bit_stream(w: WriterView, bit: bool)
    requires
        w.wf(),
    ensures
        w.after_write_bit(bit).wf(),
        w.after_write_bit(bit).stream() == w.stream().push(bit),
        w.after_write_bit(bit).capacity == w.capacity,
{
    let p = w.pending.push(bit);
    if p.len() == w.capacity {
        crate::bits::lemma_bits_to_bytes_to_bits(p);
        crate::bits::lemma_bytes_to_bits_concat(w.written, bits_to_bytes(p));
        assert(w.after_write_bit(bit).stream() =~= w.stream().push(bit));
    } else {
        assert(w.after_write_bit(bit).stream() =~= w.stream().push(bit));
    }
}

/// Writing a run of bits appends it to the stream.
pub proof fn lemma_write_bits_stream(w: WriterView, s: Seq<bool>)
    requires
        w.wf(),
    ensures
        w.after_write_bits(s).wf(),
        w.after_write_bits(s).stream() == w.stream() + s,
        w.after_write_bits(s).capacity == w.capacity,
    decreases s.len(),
{
    if s.len() == 0 {
        assert(w.stream() + s =~= w.stream());
    } else {
        lemma_write_bits_stream(w, s.drop_last());
        lemma_write_bit_stream(w.after_write_bits(s.drop_last()), s.last());
        assert(w.stream() + s.drop_last() + seq![s.last()] =~= w.stream() + s);
        assert((w.stream() + s.drop_last()).push(s.last()) =~= w.stream() + s);
    }
}

/// Writing `a` and then `b` is writing `a + b`.
pub proof fn lemma_write_bits_concat(w: WriterView, a: Seq<bool>, b: Seq<bool>)
    ensures
        w.after_write_bits(a).after_write_bits(b) == w.after_write_bits(a + b),
    decreases b.len(),
{
    if b.len() == 0 {
        assert(a + b =~= a);
    } else {
        lemma_write_bits_concat(w, a, b.drop_last());
        assert((a + b).drop_last() =~= a + b.drop_last());
        assert((a + b).last() == b.last());
    }
}

/// Handing buffered bytes over does not change the stream.
pub proof fn lemma_flush_stream(w: WriterView)
    requires
        w.wf(),
    ensures
        w.after_flush().wf(),
        w.after_flush().stream() == w.stream(),
        w.after_flush().pending.len() == w.pending.len() % 8,
{
    let k = w.pending.len() / 8;
    vstd::arithmetic::div_mod::lemma_fundamental_div_mod(w.pending.len() as int, (8) as int);
    let t = w.pending.take((8 * k) as int);
    assert(t.len() % 8 == 0) by {
        vstd::arithmetic::div_mod::lemma_fundamental_div_mod_converse(t.len() as int, (8) as int, k as int, (0) as int);
    }
    crate::bits::lemma_bits_to_bytes_to_bits(t);
    crate::bits::lemma_bytes_to_bits_concat(w.written, bits_to_bytes(t));
    assert(w.after_flush().stream() =~= w.stream());
}

/// After aligning, the stream ends on a byte boundary and has gained the
/// padding zeros.
pub proof fn lemma_align_stream(w: WriterView)
    requires
        w.wf(),
    ensures
        w.after_align().wf(),
        w.after_align().stream() == w.stream() + zeros(pad_len(w.pending.len())),
        w.after_align().stream().len() % 8 == 0,
        w.after_align().pending.len() % 8 == 0,
{
    lemma_write_bits_stream(w, zeros(pad_len(w.pending.len())));
    let a = w.after_align();
    let n = w.pending.len();
    assert(bytes_to_bits(w.written).len() % 8 == 0) by {
        vstd::arithmetic::div_mod::lemma_fundamental_div_mod_converse((8 * w.written.len()) as int, (8) as int, w.written.len() as int, (0) as int);
    }
    assert(bytes_to_bits(a.written).len() % 8 == 0) by {
        vstd::arithmetic::div_mod::lemma_fundamental_div_mod_converse((8 * a.written.len()) as int, (8) as int, a.written.len() as int, (0) as int);
    }
    assert((8 * w.written.len() + n + pad_len(n)) % 8 == 0) by {
        vstd::arithmetic::div_mod::lemma_fundamental_div_mod(n as int, (8) as int);
        if n % 8 != 0 {
            vstd::arithmetic::div_mod::lemma_fundamental_div_mod_converse((8 * w.written.len() + n + pad_len(n)) as int, (8) as int, (w.written.len() + n / 8 + 1) as int, (0) as int);
        } else {
            vstd::arithmetic::div_mod::lemma_fundamental_div_mod_converse((8 * w.written.len() + n) as int, (8) as int, (w.written.len() + n / 8) as int, (0) as int);
        }
    }
    assert(a.pending.len() % 8 == 0) by {
        let x = (8 * a.written.len()) as int;
        let y = a.pending.len() as int;
        assert(a.stream().len() == x + y);
        assert(w.stream().len() == 8 * w.written.len() + n);
        assert(x + y == 8 * w.written.len() + n + pad_len(n));
        vstd::arithmetic::div_mod::lemma_fundamental_div_mod((y) as int, (8) as int);
        vstd::arithmetic::div_mod::lemma_fundamental_div_mod((x + y) as int, (8) as int);
        vstd::arithmetic::div_mod::lemma_fundamental_div_mod_converse((x + y) as int, (8) as int, (a.written.len() + y / 8) as int, (y % 8) as int);
    }
}

/// Aligning and then handing everything over leaves the stream, padded with
/// zeros to a byte boundary, in the written bytes.
pub proof fn lemma_finish_written(w: WriterView)
    requires
        w.wf(),
    ensures
        w.after_align().after_flush().pending.len() == 0,
        bytes_to_bits(w.after_align().after_flush().written) == w.stream() + zeros(pad_len(w.pending.len())),
        w.after_align().after_flush().written == bits_to_bytes(w.stream() + zeros(pad_len(w.pending.len()))),
{
    lemma_align_stream(w);
    lemma_flush_stream(w.after_align());
    let f = w.after_align().after_flush();
    assert(f.stream() =~= bytes_to_bits(f.written));
    crate::bits::lemma_bytes_to_bits_to_bytes(f.written);
}

/// A writer that writes individual bits to a byte vector, buffering up to
/// `BUFFER_SIZE` bytes and handing them over when the buffer is full or the
/// writer is flushed.
#[derive(Debug)]
pub struct BitWriter<const BUFFER_SIZE: usize> {
    bit_pos: usize,
    writer: Vec<u8>,
    buffer: Vec<u8>,
}

impl<const BUFFER_SIZE: usize> View for BitWriter<BUFFER_SIZE> {
    type V = WriterView;

    closed spec fn view(&self) -> WriterView {
        WriterView {
            written: self.writer@,
            pending: Seq::new(self.bit_pos as nat, |j: int| byte_bit(self.buffer@[j / 8], j % 8)),
            capacity: (8 * BUFFER_SIZE) as nat,
        }
    }
}

proof fn lemma_set_bit(x: u8, i: u8, bit: bool, y: u8)
    requires
        i < 8,
        bit ==> y == x | (1u8 << ((7 - i) as u8)),
        !bit ==> y == x & !(1u8 << ((7 - i) as u8)),
    ensures
        byte_bit(y, i as int) == bit,
        forall|k: int| 0 <= k < 8 && k != i ==> byte_bit(y, k) == byte_bit(x, k),
{
    assert(((y >> ((7 - i) as u8)) & 1u8 == 1u8) == bit) by (bit_vector)
        requires
            i < 8,
            bit ==> y == x | (1u8 << ((7 - i) as u8)),
            !bit ==> y == x & !(1u8 << ((7 - i) as u8));
    assert forall|k: int| 0 <= k < 8 && k != i implies byte_bit(y, k) == byte_bit(x, k) by {
        let kk = (7 - k) as u8;
        assert(((y >> kk) & 1u8 == 1u8) == ((x >> kk) & 1u8 == 1u8)) by (bit_vector)
            requires
                i < 8,
                kk < 8,
                kk != ((7 - i) as u8),
                bit ==> y == x | (1u8 << ((7 - i) as u8)),
                !bit ==> y == x & !(1u8 << ((7 - i) as u8));
    }
}

impl<const BUFFER_SIZE: usize> BitWriter<BUFFER_SIZE> {
    /// The internal consistency that every writer keeps.
    pub closed spec fn wf(&self) -> bool {
        &&& self.buffer@.len() == BUFFER_SIZE
        &&& 0 < BUFFER_SIZE
        &&& 8 * BUFFER_SIZE <= usize::MAX
        &&& self.bit_pos < 8 * BUFFER_SIZE
    }

    /// The view of a consistent writer is consistent.
    pub proof fn lemma_wf(&self)
        requires
            self.wf(),
        ensures
            self@.wf(),
            self@.capacity == 8 * BUFFER_SIZE,
    {
        assert((8 * BUFFER_SIZE) % 8 == 0) by {
            vstd::arithmetic::div_mod::lemma_fundamental_div_mod_converse((8 * BUFFER_SIZE) as int, (8) as int, BUFFER_SIZE as int, (0) as int);
        }
    }

    /// Creates a new writer that appends to `writer`.
    pub fn new(writer: Vec<u8>) -> (w: Self)
        requires
            0 < BUFFER_SIZE,
            8 * BUFFER_SIZE <= usize::MAX,
        ensures
            w.wf(),
            w@.written == writer@,
            w@.pending == Seq::<bool>::empty(),
            w@.capacity == 8 * BUFFER_SIZE,
    {
        let mut buffer: Vec<u8> = Vec::new();
        let mut i: usize = 0;
        while i < BUFFER_SIZE
            invariant
                i <= BUFFER_SIZE,
                buffer@.len() == i,
            decreases BUFFER_SIZE - i,
        {
            buffer.push(0);
            i = i + 1;
        }
        let w = BitWriter { bit_pos: 0, writer, buffer };
        assert(w@.pending =~= Seq::<bool>::empty());
        w
    }

    /// Hands every complete buffered byte to the underlying writer; a
    /// partly written byte stays in the buffer.
    pub fn flush_buffer(&mut self) -> (r: Result<(), IoError>)
        requires
            old(self).wf(),
        ensures
            final(self).wf(),
            r is Ok,
            final(self)@ == old(self)@.after_flush(),
    {
        let ghost v = self@;
        let len = self.bit_pos / 8;
        let mut i: usize = 0;
        proof {
            vstd::arithmetic::div_mod::lemma_fundamental_div_mod(self.bit_pos as int, (8) as int);
        }
        while i < len
            invariant
                self.wf(),
                v == old(self)@,
                len == self.bit_pos / 8,
                8 * len <= self.bit_pos,
                self.bit_pos == v.pending.len(),
                self.buffer@ == old(self).buffer@,
                i <= len,
                self.writer@ == v.written + self.buffer@.take(i as int),
            decreases len - i,
        {
            let b = self.buffer[i];
            self.writer.push(b);
            i = i + 1;
            assert(self.writer@ =~= v.written + self.buffer@.take(i as int));
        }
        proof {
            let t = v.pending.take((8 * len) as int);
            assert(bits_to_bytes(t) =~= self.buffer@.take(len as int)) by {
                assert forall|q: int| 0 <= q < len implies #[trigger] bits_to_bytes(t)[q] == self.buffer@[q] by {
                    let sub = t.subrange(8 * q, 8 * q + 8);
                    assert forall|m: int| 0 <= m < 8 implies #[trigger] sub[m] == byte_to_bits(self.buffer@[q])[m] by {
                        vstd::arithmetic::div_mod::lemma_fundamental_div_mod_converse((8 * q + m) as int, (8) as int, (q) as int, (m) as int);
                    }
                    assert(sub =~= byte_to_bits(self.buffer@[q]));
                    crate::bits::lemma_byte_bits_value(self.buffer@[q]);
                }
            }
        }
        let bit_pos = self.bit_pos % 8;
        self.bit_pos = bit_pos;
        if bit_pos > 0 {
            let last_byte = self.buffer[len];
            self.buffer.set(0, last_byte);
        }
        proof {
            let k = v.pending.len() / 8;
            assert(k == len);
            assert(self@.pending =~= v.pending.skip((8 * k) as int)) by {
                assert forall|j: int| 0 <= j < bit_pos implies #[trigger] self@.pending[j] == v.pending.skip((8 * k) as int)[j] by {
                    vstd::arithmetic::div_mod::lemma_fundamental_div_mod_converse((8 * k + j) as int, (8) as int, k as int, (j) as int);
                    assert(j / 8 == 0 && j % 8 == j);
                }
            }
            assert(self@.written =~= v.after_flush().written);
        }
        Ok(())
    }

    /// Writes a single bit to the stream.
    pub fn write_bit(&mut self, bit: bool) -> (r: Result<(), IoError>)
        requires
            old(self).wf(),
        ensures
            final(self).wf(),
            r is Ok,
            final(self)@ == old(self)@.after_write_bit(bit),
    {
        let ghost v = self@;
        let byte_index = self.bit_pos / 8;
        let bit_index = self.bit_pos % 8;
        proof {
            vstd::arithmetic::div_mod::lemma_fundamental_div_mod(self.bit_pos as int, (8) as int);
            assert(byte_index < BUFFER_SIZE);
        }
        let x = self.buffer[byte_index];
        let bi = bit_index as u8;
        let y = if bit {
            x | (1u8 << (7 - bi))
        } else {
            x & !(1u8 << (7 - bi))
        };
        proof {
            lemma_set_bit(x, bi, bit, y);
        }
        self.buffer.set(byte_index, y);
        self.bit_pos = self.bit_pos + 1;
        proof {
            let p = v.pending.push(bit);
            assert forall|j: int| 0 <= j < p.len() implies #[trigger] p[j] == byte_bit(self.buffer@[j / 8], j % 8) by {
                if j < v.pending.len() {
                    if j / 8 == byte_index {
                        assert(j % 8 != bit_index);
                    }
                } else {
                    assert(j == 8 * byte_index + bit_index);
                    vstd::arithmetic::div_mod::lemma_fundamental_div_mod_converse((j) as int, (8) as int, byte_index as int, bit_index as int);
                }
            }
            assert(self@.pending =~= p);
        }
        if self.bit_pos == BUFFER_SIZE * 8 {
            let ghost full = self@;
            proof {
                assert(full.pending.len() == full.capacity);
            }
            self.flush_buffer_full();
            proof {
                assert(self@.pending =~= Seq::<bool>::empty());
            }
        }
        Ok(())
    }

    /// Writes the lowest `count` bits of `bits`, most significant first.
    pub fn write_bits(&mut self, bits: u64, count: usize) -> (r: Result<(), IoError>)
        requires
            old(self).wf(),
            count <= 64,
        ensures
            final(self).wf(),
            r is Ok,
            final(self)@ == old(self)@.after_write_bits(u64_bits(bits, count as nat)),
    {
        let ghost s = u64_bits(bits, count as nat);
        let mut i: usize = 0;
        assert(s.take(0) =~= Seq::<bool>::empty());
        while i < count
            invariant
                self.wf(),
                count <= 64,
                i <= count,
                s == u64_bits(bits, count as nat),
                self@ == old(self)@.after_write_bits(s.take(i as int)),
            decreases count - i,
        {
            let k = (count - i - 1) as u64;
            let bit = (bits >> k) & 1 == 1;
            proof {
                assert(s[i as int] == bit);
                assert(s.take(i + 1).drop_last() =~= s.take(i as int));
                assert(s.take(i + 1).last() == s[i as int]);
            }
            let _ = self.write_bit(bit);
            i = i + 1;
        }
        assert(s.take(count as int) =~= s);
        Ok(())
    }

    /// Pads the stream with zero bits up to the next byte boundary.
    pub fn align(&mut self) -> (r: Result<(), IoError>)
        requires
            old(self).wf(),
        ensures
            final(self).wf(),
            r is Ok,
            final(self)@ == old(self)@.after_align(),
    {
        let ghost v = self@;
        if !self.is_aligned() {
            let n = 8 - (self.bit_pos % 8);
            proof {
                assert(u64_bits(0, n as nat) =~= zeros(n as nat)) by {
                    assert forall|i: int| 0 <= i < n implies #[trigger] u64_bits(0, n as nat)[i] == false by {
                        let k = (n - 1 - i) as u64;
                        assert((0u64 >> k) & 1u64 == 0u64) by (bit_vector);
                    }
                }
            }
            let _ = self.write_bits(0, n);
        } else {
            proof {
                assert(zeros(0) =~= Seq::<bool>::empty());
            }
        }
        Ok(())
    }

    /// Pads to a byte boundary, hands everything over and returns the
    /// underlying writer.
    pub fn finish(self) -> (r: Result<Vec<u8>, IoError>)
        requires
            self.wf(),
        ensures
            r is Ok,
            r->Ok_0@ == self@.after_align().after_flush().written,
            r->Ok_0@ == bits_to_bytes(self@.stream() + zeros(pad_len(self@.pending.len()))),
            bytes_to_bits(r->Ok_0@) == self@.stream() + zeros(pad_len(self@.pending.len())),
    {
        let mut w = self;
        proof {
            w.lemma_wf();
            lemma_finish_written(w@);
        }
        let _ = w.align();
        let _ = w.flush_buffer();
        Ok(w.writer)
    }

    /// Writes bytes. On a byte boundary the buffer is handed over first and
    /// the bytes go straight to the underlying writer; otherwise each byte
    /// is written as eight bits.
    pub fn write(&mut self, buf: &[u8]) -> (r: Result<usize, IoError>)
        requires
            old(self).wf(),
        ensures
            final(self).wf(),
            r == Ok::<usize, IoError>(buf@.len() as usize),
            old(self)@.pending.len() % 8 == 0 ==> final(self)@ == (WriterView {
                written: old(self)@.after_flush().written + buf@,
                pending: Seq::empty(),
                capacity: old(self)@.capacity,
            }),
            old(self)@.pending.len() % 8 != 0 ==> final(self)@ == old(self)@.after_write_bits(bytes_to_bits(buf@)),
            final(self)@.stream() == old(self)@.stream() + bytes_to_bits(buf@),
    {
        proof {
            self.lemma_wf();
        }
        let ghost v = self@;
        if self.is_aligned() {
            let _ = self.flush_buffer();
            proof {
                lemma_flush_stream(v);
            }
            let ghost mid = self@;
            let mut i: usize = 0;
            while i < buf.len()
                invariant
                    self.wf(),
                    mid == v.after_flush(),
                    mid.pending.len() == 0,
                    self@.pending == mid.pending,
                    self@.capacity == mid.capacity,
                    i <= buf.len(),
                    self.writer@ == mid.written + buf@.take(i as int),
                decreases buf.len() - i,
            {
                self.writer.push(buf[i]);
                i = i + 1;
                assert(self.writer@ =~= mid.written + buf@.take(i as int));
            }
            proof {
                assert(buf@.take(buf.len() as int) =~= buf@);
                assert(self@.pending =~= Seq::<bool>::empty());
                crate::bits::lemma_bytes_to_bits_concat(mid.written, buf@);
                assert(self@.stream() =~= v.stream() + bytes_to_bits(buf@));
            }
            return Ok(buf.len());
        }
        let mut i: usize = 0;
        assert(bytes_to_bits(buf@.take(0)) =~= Seq::<bool>::empty());
        while i < buf.len()
            invariant
                self.wf(),
                v == old(self)@,
                i <= buf.len(),
                self@ == v.after_write_bits(bytes_to_bits(buf@.take(i as int))),
            decreases buf.len() - i,
        {
            let b = buf[i];
            proof {
                crate::bits::lemma_byte_bits_u64(b);
                assert(buf@.take(i + 1) =~= buf@.take(i as int) + seq![b]);
                crate::bits::lemma_bytes_to_bits_concat(buf@.take(i as int), seq![b]);
                assert(bytes_to_bits(seq![b]) =~= byte_to_bits(b));
                lemma_write_bits_concat(v, bytes_to_bits(buf@.take(i as int)), byte_to_bits(b));
            }
            let _ = self.write_bits(b as u64, 8);
            i = i + 1;
        }
        proof {
            assert(buf@.take(buf.len() as int) =~= buf@);
            lemma_write_bits_stream(v, bytes_to_bits(buf@));
        }
        Ok(buf.len())
    }

    /// Hands every complete buffered byte to the underlying writer.
    pub fn flush(&mut self) -> (r: Result<(), IoError>)
        requires
            old(self).wf(),
        ensures
            final(self).wf(),
            r is Ok,
            final(self)@ == old(self)@.after_flush(),
    {
        self.flush_buffer()
    }

    /// Returns the current bit position (0-7).
    pub fn bit_pos(&self) -> (b: u8)
        ensures
            b == self@.pending.len() % 8,
    {
        (self.bit_pos % 8) as u8
    }

    /// Checks if the writer is aligned to the byte boundary.
    pub fn is_aligned(&self) -> (b: bool)
        ensures
            b == (self@.pending.len() % 8 == 0),
    {
        self.bit_pos % 8 == 0
    }

    /// Returns the bytes handed to the underlying writer so far.
    pub fn get_ref(&self) -> (r: &Vec<u8>)
        ensures
            r@ == self@.written,
    {
        &self.writer
    }

    /// Hands a completely full buffer over.
    fn flush_buffer_full(&mut self)
        requires
            old(self).buffer@.len() == BUFFER_SIZE,
            0 < BUFFER_SIZE,
            8 * BUFFER_SIZE <= usize::MAX,
            old(self).bit_pos == 8 * BUFFER_SIZE,
        ensures
            final(self).wf(),
            final(self)@.written == old(self)@.written + bits_to_bytes(old(self)@.pending),
            final(self)@.pending == Seq::<bool>::empty(),
            final(self)@.capacity == old(self)@.capacity,
    {
        let ghost v = self@;
        let mut i: usize = 0;
        while i < BUFFER_SIZE
            invariant
                self.buffer@ == old(self).buffer@,
                self.buffer@.len() == BUFFER_SIZE,
                self.bit_pos == 8 * BUFFER_SIZE,
                v == old(self)@,
                i <= BUFFER_SIZE,
                self.writer@ == v.written + self.buffer@.take(i as int),
            decreases BUFFER_SIZE - i,
        {
            let b = self.buffer[i];
            self.writer.push(b);
            i = i + 1;
            assert(self.writer@ =~= v.written + self.buffer@.take(i as int));
        }
        proof {
            let t = v.pending;
            assert(bits_to_bytes(t) =~= self.buffer@) by {
                assert forall|q: int| 0 <= q < BUFFER_SIZE implies #[trigger] bits_to_bytes(t)[q] == self.buffer@[q] by {
                    let sub = t.subrange(8 * q, 8 * q + 8);
                    assert forall|m: int| 0 <= m < 8 implies #[trigger] sub[m] == byte_to_bits(self.buffer@[q])[m] by {
                        vstd::arithmetic::div_mod::lemma_fundamental_div_mod_converse((8 * q + m) as int, (8) as int, (q) as int, (m) as int);
                    }
                    assert(sub =~= byte_to_bits(self.buffer@[q]));
                    crate::bits::lemma_byte_bits_value(self.buffer@[q]);
                }
            }
            assert(self.buffer@.take(BUFFER_SIZE as int) =~= self.buffer@);
        }
        self.bit_pos = 0;
        assert(self@.pending =~= Seq::<bool>::empty());
    }
}

impl Default for BitWriter<64> {
    /// A writer with an empty vector and a 64-byte buffer.
    fn default() -> (w: Self)
        ensures
            w.wf(),
            w@.written == Seq::<u8>::empty(),
            w@.pending == Seq::<bool>::empty(),
            w@.capacity == 512,
    {
        BitWriter::new(Vec::new())
    }
}

} // verus!
