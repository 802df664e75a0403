//! Reading individual bits, most significant bit of each byte first, from an
//! in-memory byte cursor.
use vstd::prelude::*;
use vstd::arithmetic::power2::{pow2, lemma2_to64, lemma2_to64_rest};
use vstd::arithmetic::div_mod::lemma_fundamental_div_mod_converse;
use crate::bits::{bits_value, byte_bit, byte_to_bits, bytes_to_bits, bits_to_bytes};
use crate::cursor::{Cursor, CursorView, SeekFrom, offset_position, bytes_from};
use crate::error::IoError;
use crate::byte_buf::bytes_from_vec;

verus! {

/// The state of a [`BitReader`] as the contracts see it.
pub struct ReaderView {
    /// The underlying cursor.
    pub cursor: CursorView,
    /// Bit position inside the current byte (0 when on a byte boundary).
    pub bit_pos: u8,
    /// The bits of the current byte that have not been read yet (empty when
    /// on a byte boundary).
    pub tail: Seq<bool>,
}

/// Number of bits left in the current byte at bit position `b`.
pub open spec fn tail_len(b: nat) -> nat {
    if b == 0 { 0 } else { (8 - b) as nat }
}

/// Number of bytes loaded from the cursor while reading `n` bits from bit
/// position `b`: one for every read that starts on a byte boundary.
pub open spec fn loads(b: nat, n: nat) -> nat {
    ((b + n + 7) / 8 - (b + 7) / 8) as nat
}

impl ReaderView {
    /// The internal consistency that every reader keeps.
    pub open spec fn wf(self) -> bool {
        &&& self.bit_pos < 8
        &&& self.tail.len() == tail_len(self.bit_pos as nat)
        &&& self.cursor.data.len() <= usize::MAX
        &&& self.cursor.pos <= u64::MAX
    }

    /// The bits that successive single-bit reads return, in order.
    pub open spec fn upcoming(self) -> Seq<bool> {
        self.tail + bytes_to_bits(bytes_from(self.cursor.data, self.cursor.pos as int))
    }

    /// The state after a read that ran out of data.
    pub open spec fn at_end(self) -> ReaderView {
        ReaderView {
            cursor: CursorView { data: self.cursor.data, pos: self.cursor.data.len() },
            bit_pos: 0,
            tail: Seq::empty(),
        }
    }

    /// The state after reading `n` bits (or after failing to).
    pub open spec fn after_read(self, n: nat) -> ReaderView {
        if n <= self.upcoming().len() {
            let b = ((self.bit_pos + n) % 8) as u8;
            ReaderView {
                cursor: CursorView {
                    data: self.cursor.data,
                    pos: self.cursor.pos + loads(self.bit_pos as nat, n),
                },
                bit_pos: b,
                tail: self.upcoming().skip(n as int).take(tail_len(b as nat) as int),
            }
        } else {
            self.at_end()
        }
    }

    /// The state after the cursor has been moved to `pos` without touching
    /// the current byte.
    pub open spec fn with_pos(self, pos: nat) -> ReaderView {
        ReaderView { cursor: CursorView { data: self.cursor.data, pos }, ..self }
    }
}


/// How many whole bytes `seek_bits(count)` moves the cursor by.
pub open spec fn seek_bits_byte_offset(bit_pos: u8, count: i64) -> int {
    let abs: int = if count < 0 { -count } else { count as int };
    if count > 0 {
        abs / 8
    } else {
        -(abs / 8) - if bit_pos - abs % 8 < 0 { 1int } else { 0int }
    }
}

/// How many bits `seek_bits(count)` reads after moving the cursor.
pub open spec fn seek_bits_bit_move(count: i64) -> nat {
    let abs: int = if count < 0 { -count } else { count as int };
    (abs % 8) as nat
}

/// The bytes that an unaligned `read` fills: whole bytes from the upcoming
/// bits, then the partial byte that was being read when the bits ran out,
/// then the untouched rest of the buffer.
pub open spec fn unaligned_read_result(up: Seq<bool>, buf: Seq<u8>) -> Seq<u8> {
    let k = up.len() / 8;
    Seq::new(
        buf.len(),
        |i: int|
            if i < k {
                bits_value(up.subrange(8 * i, 8 * i + 8)) as u8
            } else if i == k {
                bits_value(up.skip((8 * k) as int)) as u8
            } else {
                buf[i]
            },
    )
}

/// A reader that reads individual bits from a byte cursor.
#[derive(Debug)]
pub struct BitReader {
    data: Cursor,
    bit_pos: u8,
    current_byte: u8,
}

impl View for BitReader {
    type V = ReaderView;

    closed spec fn view(&self) -> ReaderView {
        ReaderView {
            cursor: self.data@,
            bit_pos: self.bit_pos,
            tail: if self.bit_pos == 0 {
                Seq::empty()
            } else {
                byte_to_bits(self.current_byte).skip(self.bit_pos as int)
            },
        }
    }
}

proof fn lemma_loads_small(b: nat, n: nat)
    requires
        b < 8,
        b == 0 ==> n == 0,
        b + n <= 8,
    ensures
        loads(b, n) == 0,
{
}

/// After reading `a` bits that are there, the upcoming bits are the rest.
pub proof fn lemma_upcoming_after_read(v: ReaderView, a: nat)
    requires
        v.wf(),
        a <= v.upcoming().len(),
    ensures
        v.after_read(a).wf(),
        v.after_read(a).upcoming() == v.upcoming().skip(a as int),
{
    let up = v.upcoming();
    let data = v.cursor.data;
    let pos = v.cursor.pos as int;
    let b = v.bit_pos as nat;
    let bb = bytes_from(data, pos);
    let w = v.after_read(a);
    let t = v.tail.len();
    if a <= t {
        if a < t || b > 0 {
            lemma_loads_small(b, a);
        }
        assert(w.tail =~= v.tail.skip(a as int));
        assert(w.upcoming() =~= up.skip(a as int));
    } else {
        // b + t is 0 or 8, so reading continues on byte boundaries of `bb`.
        let c = (a - t) as nat;
        let k = (c + 7) / 8;
        assert(loads(b, a) == k) by {
            if b == 0 {
            } else {
                assert(b + a == 8 + c);
                assert((b + a + 7) / 8 == 1 + (c + 7) / 8) by {
                    lemma_fundamental_div_mod_converse((b + a + 7) as int, (8) as int, (1 + (c + 7) / 8) as int, ((c + 7) % 8) as int);
                }
            }
        }
        assert(pos < data.len());
        assert(bb == data.skip(pos));
        assert(8 * k >= c && 8 * k < c + 8) by {
            lemma_fundamental_div_mod_converse((c + 7) as int, (8) as int, ((c + 7) / 8) as int, ((c + 7) % 8) as int);
        }
        assert(k <= data.len() - pos);
        assert((b + a) % 8 == c % 8) by {
            if b > 0 {
                lemma_fundamental_div_mod_converse((b + a) as int, (8) as int, (1 + c / 8) as int, (c % 8) as int);
            }
        }
        assert(tail_len(((b + a) % 8) as nat) == 8 * k - c) by {
            lemma_fundamental_div_mod_converse((c) as int, (8) as int, (c / 8) as int, (c % 8) as int);
            if c % 8 != 0 {
                lemma_fundamental_div_mod_converse((c + 7) as int, (8) as int, (c / 8 + 1) as int, (c % 8 - 1) as int);
            } else {
                lemma_fundamental_div_mod_converse((c + 7) as int, (8) as int, (c / 8) as int, (7) as int);
            }
        }
        crate::bits::lemma_bytes_to_bits_skip(data.skip(pos), k as int);
        assert(data.skip(pos).skip(k as int) =~= data.skip(pos + k));
        assert(w.cursor.pos == pos + k);
        assert(w.cursor.data == data);
        if pos + k < data.len() {
            assert(bytes_from(data, pos + k) == data.skip(pos + k));
        } else {
            assert(data.skip(pos + k) =~= Seq::<u8>::empty());
        }
        let bbits = bytes_to_bits(bb);
        assert(bytes_to_bits(bytes_from(data, pos + k)) == bbits.skip((8 * k) as int));
        assert(up == v.tail + bbits);
        assert(up.skip(a as int) =~= bbits.skip(c as int));
        assert(w.bit_pos as nat == (b + a) % 8);
        assert(w.tail.len() == 8 * k - c);
        assert(w.tail =~= bbits.skip(c as int).take(8 * k - c));
        assert(bbits.skip(c as int) =~= bbits.skip(c as int).take(8 * k - c) + bbits.skip((8 * k) as int));
        assert(w.upcoming() =~= up.skip(a as int));
    }
}

/// Reading `a` bits and then `c` more is reading `a + c` bits.
pub proof fn lemma_after_read_compose(v: ReaderView, a: nat, c: nat)
    requires
        v.wf(),
        a <= v.upcoming().len(),
    ensures
        v.after_read(a).after_read(c) == v.after_read(a + c),
{
    lemma_upcoming_after_read(v, a);
    let w = v.after_read(a);
    let up = v.upcoming();
    if a + c <= up.len() {
        let b = v.bit_pos as nat;
        let b1 = ((b + a) % 8) as nat;
        assert(loads(b, a) + loads(b1, c) == loads(b, a + c)) by {
            lemma_fundamental_div_mod_converse((b + a) as int, (8) as int, ((b + a) / 8) as int, ((b + a) % 8) as int);
            lemma_fundamental_div_mod_converse((b + a + 7) as int, (8) as int, ((b + a) / 8 + ((b + a) % 8 + 7) / 8) as int, (((b + a) % 8 + 7) % 8) as int);
            lemma_fundamental_div_mod_converse((b + a + c + 7) as int, (8) as int, ((b + a) / 8 + (b1 + c + 7) / 8) as int, ((b1 + c + 7) % 8) as int);
        }
        assert(((b1 + c) % 8) == ((b + a + c) % 8)) by {
            lemma_fundamental_div_mod_converse((b + a + c) as int, (8) as int, ((b + a) / 8 + (b1 + c) / 8) as int, ((b1 + c) % 8) as int);
        }
        assert(w.upcoming().skip(c as int) =~= up.skip((a + c) as int));
    }
}

/// The upcoming bits are bounded by the size of the data.
pub proof fn lemma_upcoming_len_bound(v: ReaderView)
    requires
        v.wf(),
    ensures
        v.upcoming().len() <= 8 + 8 * v.cursor.data.len(),
{
    let bb = bytes_from(v.cursor.data, v.cursor.pos as int);
    assert(bb.len() <= v.cursor.data.len());
}

/// Reading no bits changes nothing.
pub proof fn lemma_after_read_zero(v: ReaderView)
    requires
        v.wf(),
    ensures
        v.after_read(0) == v,
{
    assert(v.upcoming().skip(0).take(v.tail.len() as int) =~= v.tail);
    assert(v.bit_pos % 8 == v.bit_pos);
}

/// A single-bit read, seen as reading one bit.
proof fn lemma_after_read_one_aligned(v: ReaderView)
    requires
        v.wf(),
        v.bit_pos == 0,
        v.cursor.pos < v.cursor.data.len(),
    ensures
        v.upcoming().len() >= 1,
        v.upcoming()[0] == byte_bit(v.cursor.data[v.cursor.pos as int], 0),
        v.after_read(1).cursor == (CursorView { data: v.cursor.data, pos: v.cursor.pos + 1 }),
        v.after_read(1).bit_pos == 1,
        v.after_read(1).tail == byte_to_bits(v.cursor.data[v.cursor.pos as int]).skip(1),
{
    let data = v.cursor.data;
    let pos = v.cursor.pos as int;
    crate::bits::lemma_bytes_to_bits_cons(data.skip(pos));
    assert(v.tail =~= Seq::<bool>::empty());
    assert(v.upcoming() =~= bytes_to_bits(data.skip(pos)));
    assert(v.after_read(1).tail =~= byte_to_bits(data[pos]).skip(1));
}

impl BitReader {
    /// Creates a new reader on a cursor; the reader starts on a byte boundary.
    pub fn new(data: Cursor) -> (r: BitReader)
        ensures
            r@.wf(),
            r@.cursor == data@,
            r@.bit_pos == 0,
            r@.tail == Seq::<bool>::empty(),
            r@.upcoming() == bytes_to_bits(bytes_from(data@.data, data@.pos as int)),
    {
        // Reading the length and the position tells the proof their bounds.
        let _len = data.data_len();
        let _pos = data.position();
        BitReader { data, bit_pos: 0, current_byte: 0 }
    }

    /// Creates a reader at the start of a byte buffer.
    pub fn new_from_slice(data: Vec<u8>) -> (r: BitReader)
        ensures
            r@.wf(),
            r@.cursor.data == data@,
            r@.cursor.pos == 0,
            r@.bit_pos == 0,
            r@.upcoming() == bytes_to_bits(data@),
    {
        let r = Self::new(Cursor::new(bytes_from_vec(data)));
        proof {
            if data@.len() == 0 {
                assert(bytes_to_bits(data@) =~= Seq::<bool>::empty());
                assert(bytes_to_bits(Seq::<u8>::empty()) =~= Seq::<bool>::empty());
            } else {
                assert(data@.skip(0) =~= data@);
            }
            assert(r@.upcoming() =~= bytes_to_bits(data@));
        }
        r
    }

    /// Reads a single bit. Fails only when no bit is left; the reader is then
    /// at the end of its data.
    pub fn read_bit(&mut self) -> (r: Result<bool, IoError>)
        requires
            old(self)@.wf(),
        ensures
            final(self)@.wf(),
            final(self)@ == old(self)@.after_read(1),
            old(self)@.upcoming().len() >= 1 ==> r == Ok::<bool, IoError>(old(self)@.upcoming()[0]),
            old(self)@.upcoming().len() == 0 ==> r == Err::<bool, IoError>(IoError::UnexpectedEof),
            final(self)@.upcoming() == old(self)@.upcoming().skip(1)
                || (old(self)@.upcoming().len() == 0 && final(self)@.upcoming().len() == 0),
    {
        let ghost v = self@;
        if self.bit_pos == 0 {
            match self.data.read_byte() {
                Ok(b) => {
                    self.current_byte = b;
                    proof {
                        lemma_after_read_one_aligned(v);
                    }
                    let bit = (self.current_byte >> 7u8) & 1;
                    self.bit_pos = 1;
                    proof {
                        assert(self@.tail =~= v.after_read(1).tail);
                        lemma_upcoming_after_read(v, 1);
                    }
                    Ok(bit == 1)
                },
                Err(e) => {
                    proof {
                        assert(v.upcoming() =~= Seq::<bool>::empty());
                        assert(self@ == v.at_end());
                        assert(v.at_end().upcoming() =~= Seq::<bool>::empty());
                    }
                    Err(e)
                },
            }
        } else {
            let bit = (self.current_byte >> (7 - self.bit_pos)) & 1;
            self.bit_pos = (self.bit_pos + 1) % 8;
            proof {
                let up = v.upcoming();
                assert(up[0] == v.tail[0]);
                lemma_loads_small(v.bit_pos as nat, 1);
                assert(self@.tail =~= v.after_read(1).tail);
                lemma_upcoming_after_read(v, 1);
            }
            Ok(bit == 1)
        }
    }

    /// Reads `count` bits, most significant first, into the low bits of the
    /// result (bits beyond the 64 lowest are lost). Fails when fewer than
    /// `count` bits are left; the reader is then at the end of its data.
    pub fn read_bits(&mut self, count: u8) -> (r: Result<u64, IoError>)
        requires
            old(self)@.wf(),
        ensures
            final(self)@.wf(),
            final(self)@ == old(self)@.after_read(count as nat),
            count <= old(self)@.upcoming().len() ==> r == Ok::<u64, IoError>(
                (bits_value(old(self)@.upcoming().take(count as int)) % pow2(64)) as u64,
            ),
            count > old(self)@.upcoming().len() ==> r == Err::<u64, IoError>(IoError::UnexpectedEof),
            count <= old(self)@.upcoming().len() ==> final(self)@.upcoming() == old(self)@.upcoming().skip(count as int),
    {
        proof {
            lemma2_to64();
            lemma2_to64_rest();
        }
        let ghost v = self@;
        let ghost up = v.upcoming();
        let mut bits: u64 = 0;
        let mut i: u8 = 0;
        proof {
            assert(v.after_read(0) =~= v) by {
                assert(up.skip(0).take(v.tail.len() as int) =~= v.tail);
                assert(v.bit_pos % 8 == v.bit_pos);
            }
            assert(up.take(0) =~= Seq::<bool>::empty());
        }
        while i < count
            invariant
                v == old(self)@,
                v.wf(),
                up == v.upcoming(),
                i <= count,
                i <= up.len(),
                self@ == v.after_read(i as nat),
                self@.wf(),
                bits as nat == bits_value(up.take(i as int)) % pow2(64),
            decreases count - i,
        {
            proof {
                lemma_upcoming_after_read(v, i as nat);
                lemma_after_read_compose(v, i as nat, 1);
            }
            let res = self.read_bit();
            let bit = match res {
                Ok(b) => b,
                Err(e) => {
                    proof {
                        assert(i + 1 > up.len());
                        assert(self@ == v.after_read((i + 1) as nat));
                        assert(v.after_read((i + 1) as nat) == v.at_end());
                        assert(v.after_read(count as nat) == v.at_end());
                    }
                    return Err(e);
                },
            };
            proof {
                crate::bits::lemma_bits_value_take_step(up, i as int);
                assert(self@.upcoming().len() == up.len() - i - 1);
            }
            let ghost old_bits = bits;
            let b: u64 = if bit { 1 } else { 0 };
            bits = (bits << 1u64) | b;
            proof {
                lemma2_to64();
                lemma2_to64_rest();
                let m = pow2(64);
                let x = bits_value(up.take(i as int));
                assert(old_bits as nat == x % m);
                assert(bits as int == if old_bits < 0x8000_0000_0000_0000u64 { 2 * old_bits + b } else { 2 * old_bits + b - 0x1_0000_0000_0000_0000 }) by (bit_vector)
                    requires bits == (old_bits << 1u64) | b, b <= 1;
                assert(bits as int == (2 * x + b) as int % (m as int)) by {
                    vstd::arithmetic::div_mod::lemma_fundamental_div_mod(x as int, m as int);
                    crate::bits::lemma_bits_value_bound(up.take(i as int));
                    let q = x / m;
                    if old_bits < 0x8000_0000_0000_0000u64 {
                        lemma_fundamental_div_mod_converse((2 * x + b) as int, (m as int) as int, (2 * q) as int, (bits as int) as int);
                    } else {
                        lemma_fundamental_div_mod_converse((2 * x + b) as int, (m as int) as int, (2 * q + 1) as int, (bits as int) as int);
                    }
                }
            }
            i = i + 1;
        }
        proof {
            lemma_upcoming_after_read(v, count as nat);
        }
        Ok(bits)
    }

    /// Skips to the next byte boundary by reading the rest of the current
    /// byte (when on a boundary this reads a whole byte).
    pub fn align(&mut self) -> (r: Result<(), IoError>)
        requires
            old(self)@.wf(),
        ensures
            final(self)@.wf(),
            final(self)@ == old(self)@.after_read((8 - old(self)@.bit_pos) as nat),
            r is Ok <==> 8 - old(self)@.bit_pos <= old(self)@.upcoming().len(),
            r is Err ==> r == Err::<(), IoError>(IoError::UnexpectedEof),
    {
        let amount_to_read = 8 - self.bit_pos;
        match self.read_bits(amount_to_read) {
            Ok(_) => Ok(()),
            Err(e) => Err(e),
        }
    }


    /// Moves `count` bits forward or backward: the cursor moves by whole
    /// bytes and then the remaining bits are read.
    pub fn seek_bits(&mut self, count: i64) -> (r: Result<(), IoError>)
        requires
            old(self)@.wf(),
            count != i64::MIN,
        ensures
            final(self)@.wf(),
            count == 0 ==> r is Ok && final(self)@ == old(self)@,
            count != 0 ==> match offset_position(
                old(self)@.cursor.pos as int,
                seek_bits_byte_offset(old(self)@.bit_pos, count),
            ) {
                None => r == Err::<(), IoError>(IoError::InvalidSeek) && final(self)@ == old(self)@,
                Some(p) => {
                    let mid = old(self)@.with_pos(p);
                    &&& final(self)@ == mid.after_read(seek_bits_bit_move(count))
                    &&& (r is Ok <==> seek_bits_bit_move(count) <= mid.upcoming().len())
                    &&& (r is Err ==> r == Err::<(), IoError>(IoError::UnexpectedEof))
                },
            },
    {
        if count == 0 {
            return Ok(());
        }
        let abs: i64 = if count < 0 { -count } else { count };
        let bit_move = abs % 8;
        let byte_move = abs / 8;
        if count > 0 {
            match self.data.seek(SeekFrom::Current(byte_move)) {
                Ok(_) => {},
                Err(e) => return Err(e),
            }
            match self.read_bits(bit_move as u8) {
                Ok(_) => Ok(()),
                Err(e) => Err(e),
            }
        } else {
            let bit_pos = self.bit_pos as i64 - bit_move;
            let additional_byte_move: i64 = if bit_pos < 0 { 1 } else { 0 };
            match self.data.seek(SeekFrom::Current(-byte_move - additional_byte_move)) {
                Ok(_) => {},
                Err(e) => return Err(e),
            }
            match self.read_bits(bit_move as u8) {
                Ok(_) => Ok(()),
                Err(e) => Err(e),
            }
        }
    }

    /// Seeks the reader. Seeking from the start or the end lands on a byte
    /// boundary; seeking from the current position moves by whole bytes and
    /// keeps the bit position. Returns the new cursor position.
    pub fn seek(&mut self, pos: SeekFrom) -> (r: Result<u64, IoError>)
        requires
            old(self)@.wf(),
            pos matches SeekFrom::Current(off) ==> i64::MIN < off * 8 <= i64::MAX,
        ensures
            final(self)@.wf(),
            match pos {
                SeekFrom::Start(n) => r == Ok::<u64, IoError>(n) && final(self)@ == (ReaderView {
                    cursor: CursorView { data: old(self)@.cursor.data, pos: n as nat },
                    bit_pos: 0,
                    tail: Seq::empty(),
                }),
                SeekFrom::End(n) => match offset_position(old(self)@.cursor.data.len() as int, n as int) {
                    Some(p) => r == Ok::<u64, IoError>(p as u64) && final(self)@ == (ReaderView {
                        cursor: CursorView { data: old(self)@.cursor.data, pos: p },
                        bit_pos: 0,
                        tail: Seq::empty(),
                    }),
                    None => r == Err::<u64, IoError>(IoError::InvalidSeek) && final(self)@ == (ReaderView {
                        bit_pos: 0,
                        tail: Seq::empty(),
                        ..old(self)@
                    }),
                },
                SeekFrom::Current(off) => if off == 0 {
                    r == Ok::<u64, IoError>(old(self)@.cursor.pos as u64) && final(self)@ == old(self)@
                } else {
                    match offset_position(old(self)@.cursor.pos as int, off as int) {
                        None => r == Err::<u64, IoError>(IoError::InvalidSeek) && final(self)@ == old(self)@,
                        Some(p) => r == Ok::<u64, IoError>(p as u64) && final(self)@ == old(self)@.with_pos(p),
                    }
                },
            },
    {
        match pos {
            SeekFrom::Start(_) => {
                self.bit_pos = 0;
                self.data.seek(pos)
            },
            SeekFrom::Current(offset) => {
                let ghost v = self@;
                proof {
                    if offset != 0 {
                        lemma_after_read_zero(v.with_pos(0));
                    }
                }
                match self.seek_bits(offset * 8) {
                    Ok(()) => {},
                    Err(e) => return Err(e),
                }
                proof {
                    if offset != 0 {
                        let p = offset_position(v.cursor.pos as int, offset as int).unwrap();
                        lemma_after_read_zero(v.with_pos(p));
                    }
                }
                Ok(self.data.position())
            },
            SeekFrom::End(_) => {
                self.bit_pos = 0;
                self.data.seek(pos)
            },
        }
    }


    /// Reads bytes into `buf`. On a byte boundary this copies as many of the
    /// cursor's next bytes as fit; otherwise it reads eight bits for every
    /// byte of `buf` and fails if the bits run out, leaving the bytes read so
    /// far (and the partly read one) in `buf`.
    pub fn read(&mut self, buf: &mut Vec<u8>) -> (r: Result<usize, IoError>)
        requires
            old(self)@.wf(),
            8 * old(buf)@.len() <= usize::MAX,
        ensures
            final(self)@.wf(),
            final(buf)@.len() == old(buf)@.len(),
            old(self)@.bit_pos == 0 ==> {
                let c = old(self)@.cursor;
                let n: int = if c.pos >= c.data.len() {
                    0
                } else if old(buf)@.len() <= c.data.len() - c.pos {
                    old(buf)@.len() as int
                } else {
                    c.data.len() - c.pos
                };
                &&& r == Ok::<usize, IoError>(n as usize)
                &&& final(self)@ == old(self)@.with_pos((c.pos + n) as nat)
                &&& final(buf)@ == bytes_from(c.data, c.pos as int).take(n) + old(buf)@.skip(n)
            },
            old(self)@.bit_pos != 0 ==> {
                let up = old(self)@.upcoming();
                let l = old(buf)@.len();
                if 8 * l <= up.len() {
                    &&& r == Ok::<usize, IoError>(l as usize)
                    &&& final(self)@ == old(self)@.after_read(8 * l)
                    &&& final(buf)@ == unaligned_read_result(up.take((8 * l) as int), old(buf)@)
                } else {
                    &&& r == Err::<usize, IoError>(IoError::UnexpectedEof)
                    &&& final(self)@ == old(self)@.at_end()
                    &&& final(buf)@ == unaligned_read_result(up, old(buf)@)
                }
            },
    {
        if self.bit_pos == 0 {
            let ghost v = self@;
            let n = self.data.read(buf);
            proof {
                assert(self@.tail =~= v.tail);
            }
            return Ok(n);
        }
        let ghost v = self@;
        let ghost up = v.upcoming();
        let ghost old_buf = buf@;
        let len = buf.len();
        let mut i: usize = 0;
        proof {
            lemma_after_read_zero(v);
        }
        while i < len
            invariant
                v == old(self)@,
                old_buf == old(buf)@,
                v.wf(),
                v.bit_pos != 0,
                up == v.upcoming(),
                len == old_buf.len(),
                8 * len <= usize::MAX,
                0 <= i <= len,
                8 * i <= up.len(),
                self@ == v.after_read(8 * i as nat),
                self@.wf(),
                buf@.len() == len,
                forall|t: int| 0 <= t < i ==> #[trigger] buf@[t] == bits_value(up.subrange(8 * t, 8 * t + 8)) as u8,
                forall|t: int| i <= t < len ==> #[trigger] buf@[t] == old_buf[t],
            decreases len - i,
        {
            let mut byte: u8 = 0;
            buf.set(i, byte);
            let mut j: usize = 0;
            proof {
                assert(up.subrange(8 * i, 8 * i) =~= Seq::<bool>::empty());
            }
            while j < 8
                invariant
                    v == old(self)@,
                    old_buf == old(buf)@,
                    v.wf(),
                    v.bit_pos != 0,
                    up == v.upcoming(),
                    len == old_buf.len(),
                    8 * len <= usize::MAX,
                    0 <= i < len,
                    0 <= j <= 8,
                    8 * i + j <= up.len(),
                    self@ == v.after_read((8 * i + j) as nat),
                    self@.wf(),
                    buf@.len() == len,
                    byte == bits_value(up.subrange(8 * i, 8 * i + j)),
                    buf@[i as int] == byte,
                    forall|t: int| 0 <= t < i ==> #[trigger] buf@[t] == bits_value(up.subrange(8 * t, 8 * t + 8)) as u8,
                    forall|t: int| i < t < len ==> #[trigger] buf@[t] == old_buf[t],
                decreases 8 - j,
            {
                proof {
                    lemma_upcoming_after_read(v, (8 * i + j) as nat);
                    lemma_after_read_compose(v, (8 * i + j) as nat, 1);
                }
                let res = self.read_bit();
                let bit = match res {
                    Ok(b) => b,
                    Err(e) => {
                        proof {
                            assert(up.len() == 8 * i + j);
                            assert(self@ == v.after_read((8 * i + j + 1) as nat));
                            assert(8 * len > up.len());
                            let k = up.len() / 8;
                            assert(k == i) by {
                                vstd::arithmetic::div_mod::lemma_fundamental_div_mod_converse(up.len() as int, 8, i as int, j as int);
                            }
                            assert(up.skip((8 * k) as int) =~= up.subrange(8 * i, 8 * i + j));
                            assert(buf@ =~= unaligned_read_result(up, old_buf));
                        }
                        return Err(e);
                    },
                };
                proof {
                    let sub = up.subrange(8 * i, 8 * i + j);
                    assert(up.subrange(8 * i, 8 * i + j + 1) =~= sub.push(up[8 * i + j]));
                    crate::bits::lemma_bits_value_push(sub, up[8 * i + j]);
                    crate::bits::lemma_bits_value_bound(sub);
                    lemma2_to64();
                    assert(pow2(sub.len()) <= 128) by {
                        if sub.len() < 7 {
                            vstd::arithmetic::power2::lemma_pow2_strictly_increases(sub.len(), 7);
                        }
                    }
                }
                let ghost old_byte = byte;
                let b: u8 = if bit { 1 } else { 0 };
                byte = (byte << 1u8) | b;
                proof {
                    assert(byte == 2 * old_byte + b) by (bit_vector)
                        requires byte == (old_byte << 1u8) | b, old_byte < 128, b <= 1;
                }
                buf.set(i, byte);
                j = j + 1;
            }
            i = i + 1;
        }
        proof {
            lemma_upcoming_after_read(v, (8 * len) as nat);
            assert(buf@ =~= unaligned_read_result(up.take(8 * len), old_buf)) by {
                assert forall|t: int| 0 <= t < len implies buf@[t] == unaligned_read_result(up.take(8 * len), old_buf)[t] by {
                    assert(up.take(8 * len).subrange(8 * t, 8 * t + 8) =~= up.subrange(8 * t, 8 * t + 8));
                }
            }
        }
        Ok(len)
    }

    /// Returns the underlying cursor.
    pub fn into_inner(self) -> (c: Cursor)
        ensures
            c@ == self@.cursor,
    {
        self.data
    }

    /// Returns a reference to the underlying cursor.
    pub fn get_ref(&self) -> (c: &Cursor)
        ensures
            c@ == self@.cursor,
    {
        &self.data
    }

    /// Returns the current bit position (0-7).
    pub fn bit_pos(&self) -> (b: u8)
        requires
            self@.wf(),
        ensures
            b == self@.bit_pos,
            b < 8,
    {
        self.bit_pos
    }

    /// Checks if the reader is aligned to the byte boundary.
    pub fn is_aligned(&self) -> (b: bool)
        ensures
            b == (self@.bit_pos == 0),
    {
        self.bit_pos == 0
    }
}

} // verus!
