//! The AV1 codec configuration record (`av1C` box of ISOBMFF): its bit
//! layout, parsing and serialisation.
use vstd::prelude::*;
use vstd::arithmetic::power2::{pow2, lemma2_to64, lemma2_to64_rest};
use crate::bits::{bits_value, bytes_to_bits, u64_bits, zeros, pad_len, bits_to_bytes};
use crate::bit_reader::{BitReader, ReaderView};
use crate::bit_writer::{BitWriter, WriterView};
use crate::cursor::{Cursor, bytes_from};
use crate::error::IoError;
use crate::byte_buf::{bytes_view, bytes_as_slice, empty_bytes};
use bytes::Bytes;

verus! {

/// AV1 Codec Configuration Record
/// <https://aomediacodec.github.io/av1-isobmff/#av1codecconfigurationbox-syntax>
#[derive(Debug, PartialEq)]
pub struct AV1CodecConfigurationRecord {
    pub seq_profile: u8,
    pub seq_level_idx_0: u8,
    pub seq_tier_0: bool,
    pub high_bitdepth: bool,
    pub twelve_bit: bool,
    pub monochrome: bool,
    pub chroma_subsampling_x: bool,
    pub chroma_subsampling_y: bool,
    pub chroma_sample_position: u8,
    pub initial_presentation_delay_minus_one: Option<u8>,
    pub config_obu: Bytes,
}

impl Clone for AV1CodecConfigurationRecord {
    /// A copy with the same fields and the same configuration OBU bytes.
    fn clone(&self) -> (r: AV1CodecConfigurationRecord)
        ensures
            r.seq_profile == self.seq_profile,
            r.seq_level_idx_0 == self.seq_level_idx_0,
            r.seq_tier_0 == self.seq_tier_0,
            r.high_bitdepth == self.high_bitdepth,
            r.twelve_bit == self.twelve_bit,
            r.monochrome == self.monochrome,
            r.chroma_subsampling_x == self.chroma_subsampling_x,
            r.chroma_subsampling_y == self.chroma_subsampling_y,
            r.chroma_sample_position == self.chroma_sample_position,
            r.initial_presentation_delay_minus_one == self.initial_presentation_delay_minus_one,
            bytes_view(r.config_obu) == bytes_view(self.config_obu),
    {
        AV1CodecConfigurationRecord {
            seq_profile: self.seq_profile,
            seq_level_idx_0: self.seq_level_idx_0,
            seq_tier_0: self.seq_tier_0,
            high_bitdepth: self.high_bitdepth,
            twelve_bit: self.twelve_bit,
            monochrome: self.monochrome,
            chroma_subsampling_x: self.chroma_subsampling_x,
            chroma_subsampling_y: self.chroma_subsampling_y,
            chroma_sample_position: self.chroma_sample_position,
            initial_presentation_delay_minus_one: self.initial_presentation_delay_minus_one,
            config_obu: self.config_obu.clone(),
        }
    }
}

/// The value of the bits `lo..hi` of `b`.
pub open spec fn field(b: Seq<bool>, lo: int, hi: int) -> nat {
    bits_value(b.subrange(lo, hi))
}

/// Whether the record's header fields, read from the bits `b` of its first
/// four bytes, are what `r` holds.
pub open spec fn header_matches(r: AV1CodecConfigurationRecord, b: Seq<bool>) -> bool {
    &&& r.seq_profile == field(b, 8, 11)
    &&& r.seq_level_idx_0 == field(b, 11, 16)
    &&& r.seq_tier_0 == b[16]
    &&& r.high_bitdepth == b[17]
    &&& r.twelve_bit == b[18]
    &&& r.monochrome == b[19]
    &&& r.chroma_subsampling_x == b[20]
    &&& r.chroma_subsampling_y == b[21]
    &&& r.chroma_sample_position == field(b, 22, 24)
    &&& r.initial_presentation_delay_minus_one == if b[27] {
        Some(field(b, 28, 32) as u8)
    } else {
        None::<u8>
    }
}

/// The bits that `mux` writes before the configuration OBUs.
pub open spec fn header_bits(r: AV1CodecConfigurationRecord) -> Seq<bool> {
    seq![true] + u64_bits(1, 7) + u64_bits(r.seq_profile as u64, 3) + u64_bits(r.seq_level_idx_0 as u64, 5)
        + seq![r.seq_tier_0, r.high_bitdepth, r.twelve_bit, r.monochrome, r.chroma_subsampling_x, r.chroma_subsampling_y]
        + u64_bits(r.chroma_sample_position as u64, 2) + u64_bits(0, 3)
        + match r.initial_presentation_delay_minus_one {
            Some(d) => seq![true] + u64_bits(d as u64, 4),
            None => seq![false] + u64_bits(0, 4),
        }
}

/// Whether every field fits in the number of bits the layout gives it.
pub open spec fn fields_fit(r: AV1CodecConfigurationRecord) -> bool {
    &&& r.seq_profile < 8
    &&& r.seq_level_idx_0 < 32
    &&& r.chroma_sample_position < 4
    &&& r.initial_presentation_delay_minus_one matches Some(d) ==> d < 16
}

proof fn lemma_small_read(s: Seq<bool>, n: int)
    requires
        0 < n <= 8,
    ensures
        s.len() >= n ==> bits_value(s.take(n)) < 256,
        s.len() >= n ==> (bits_value(s.take(n)) % pow2(64)) as u64 as u8 == bits_value(s.take(n)),
{
    if s.len() < n {
        return;
    }
    crate::bits::lemma_bits_value_bound(s.take(n));
    lemma2_to64();
    lemma2_to64_rest();
    if n < 8 {
        vstd::arithmetic::power2::lemma_pow2_strictly_increases(n as nat, 8);
    }
    vstd::arithmetic::div_mod::lemma_small_mod(bits_value(s.take(n)), pow2(64));
}

/// Reads `n` bits (at most 8) at bit `at` of the upcoming bits of `v`.
fn read_field(bit_reader: &mut BitReader, n: u8, Ghost(v): Ghost<ReaderView>, Ghost(at): Ghost<nat>) -> (r: Result<u8, IoError>)
    requires
        v.wf(),
        0 < n <= 8,
        at <= v.upcoming().len(),
        old(bit_reader)@ == v.after_read(at),
    ensures
        final(bit_reader)@.wf(),
        at + n <= v.upcoming().len() ==> r == Ok::<u8, IoError>(field(v.upcoming(), at as int, at + n) as u8)
            && field(v.upcoming(), at as int, at + n) < 256
            && final(bit_reader)@ == v.after_read((at + n) as nat),
        at + n > v.upcoming().len() ==> r == Err::<u8, IoError>(IoError::UnexpectedEof)
            && final(bit_reader)@ == v.at_end(),
{
    proof {
        let b = v.upcoming();
        crate::bit_reader::lemma_upcoming_after_read(v, at);
        crate::bit_reader::lemma_after_read_compose(v, at, n as nat);
        lemma_small_read(b.skip(at as int), n as int);
        if at + n <= b.len() {
            assert(b.skip(at as int).take(n as int) =~= b.subrange(at as int, at + n));
        } else {
            assert(v.after_read((at + n) as nat) == v.at_end());
        }
    }
    match bit_reader.read_bits(n) {
        Ok(x) => Ok(x as u8),
        Err(e) => Err(e),
    }
}

/// Reads the bit at `at` of the upcoming bits of `v`.
fn read_flag(bit_reader: &mut BitReader, Ghost(v): Ghost<ReaderView>, Ghost(at): Ghost<nat>) -> (r: Result<bool, IoError>)
    requires
        v.wf(),
        at <= v.upcoming().len(),
        old(bit_reader)@ == v.after_read(at),
    ensures
        final(bit_reader)@.wf(),
        at + 1 <= v.upcoming().len() ==> r == Ok::<bool, IoError>(v.upcoming()[at as int])
            && final(bit_reader)@ == v.after_read(at + 1),
        at + 1 > v.upcoming().len() ==> r == Err::<bool, IoError>(IoError::UnexpectedEof)
            && final(bit_reader)@ == v.at_end(),
{
    proof {
        crate::bit_reader::lemma_upcoming_after_read(v, at);
        crate::bit_reader::lemma_after_read_compose(v, at, 1);
    }
    bit_reader.read_bit()
}

/// Skips `n` reserved bits (fewer than 8, staying inside the current byte
/// or starting on a boundary) at bit `at` of the upcoming bits of `v`.
fn skip_reserved(bit_reader: &mut BitReader, n: i64, Ghost(v): Ghost<ReaderView>, Ghost(at): Ghost<nat>) -> (r: Result<(), IoError>)
    requires
        v.wf(),
        0 < n < 8,
        at <= v.upcoming().len(),
        old(bit_reader)@ == v.after_read(at),
    ensures
        final(bit_reader)@.wf(),
        at + n <= v.upcoming().len() ==> r is Ok && final(bit_reader)@ == v.after_read((at + n) as nat),
        at + n > v.upcoming().len() ==> r == Err::<(), IoError>(IoError::UnexpectedEof)
            && final(bit_reader)@ == v.at_end(),
{
    proof {
        crate::bit_reader::lemma_upcoming_after_read(v, at);
        crate::bit_reader::lemma_after_read_compose(v, at, n as nat);
        let w = v.after_read(at);
        assert(w.with_pos(w.cursor.pos) == w);
        assert(crate::bit_reader::seek_bits_byte_offset(w.bit_pos, n) == 0);
        if at + n > v.upcoming().len() {
            assert(v.after_read((at + n) as nat) == v.at_end());
        }
    }
    bit_reader.seek_bits(n)
}

/// Every bit a writer has been given, kept opaque so that long runs of
/// writes are reasoned about as appends only.
#[verifier::opaque]
spec fn bits_so_far(w: WriterView) -> Seq<bool> {
    w.stream()
}

/// Writes one bit, appending it to the writer's stream.
fn put_bit(bit_writer: &mut BitWriter<64>, bit: bool)
    requires
        old(bit_writer).wf(),
    ensures
        final(bit_writer).wf(),
        bits_so_far(final(bit_writer)@) == bits_so_far(old(bit_writer)@).push(bit),
{
    let ghost v = bit_writer@;
    proof {
        bit_writer.lemma_wf();
    }
    let _ = bit_writer.write_bit(bit);
    proof {
        crate::bit_writer::lemma_write_bit_stream(v, bit);
        reveal(bits_so_far);
    }
}

/// Writes the low `n` bits of `value`, appending them to the writer's stream.
fn put_bits(bit_writer: &mut BitWriter<64>, value: u64, n: usize)
    requires
        old(bit_writer).wf(),
        n <= 64,
    ensures
        final(bit_writer).wf(),
        bits_so_far(final(bit_writer)@) == bits_so_far(old(bit_writer)@) + u64_bits(value, n as nat),
{
    let ghost v = bit_writer@;
    proof {
        bit_writer.lemma_wf();
    }
    let _ = bit_writer.write_bits(value, n);
    proof {
        crate::bit_writer::lemma_write_bits_stream(v, u64_bits(value, n as nat));
        reveal(bits_so_far);
    }
}

/// Appending to a stream that extends `s0` by `acc` extends it by more.
proof fn lemma_append(s0: Seq<bool>, acc: Seq<bool>, more: Seq<bool>)
    ensures
        (s0 + acc) + more == s0 + (acc + more),
{
    assert((s0 + acc) + more =~= s0 + (acc + more));
}

/// A stream of whole bytes followed by the 32 header bits packs into those
/// bytes followed by the packed header.
proof fn lemma_header_packed(w: WriterView, before: Seq<u8>, h: Seq<bool>)
    requires
        w.wf(),
        h.len() == 32,
        w.stream() == bytes_to_bits(before) + h,
    ensures
        w.pending.len() % 8 == 0,
        bits_to_bytes(w.stream() + zeros(pad_len(w.pending.len()))) == before + bits_to_bytes(h),
{
    let np = w.pending.len();
    assert(w.stream().len() == 8 * w.written.len() + np);
    assert((bytes_to_bits(before) + h).len() == 8 * before.len() + 32);
    assert(np % 8 == 0) by {
        vstd::arithmetic::div_mod::lemma_fundamental_div_mod_converse(
            np as int, 8, (before.len() + 4 - w.written.len()) as int, 0);
    }
    assert(w.stream() + zeros(pad_len(np)) =~= bytes_to_bits(before) + h);
    assert(h.len() % 8 == 0);
    crate::bits::lemma_bytes_to_bits_to_bytes(before);
    crate::bits::lemma_bits_to_bytes_concat(bytes_to_bits(before), h);
}

/// The header bits, split into the fields the layout gives them.
proof fn lemma_header_layout(r: AV1CodecConfigurationRecord)
    ensures
        header_bits(r).len() == 32,
        header_bits(r)[0],
        header_bits(r).subrange(1, 8) == u64_bits(1, 7),
        header_bits(r).subrange(8, 11) == u64_bits(r.seq_profile as u64, 3),
        header_bits(r).subrange(11, 16) == u64_bits(r.seq_level_idx_0 as u64, 5),
        header_bits(r)[16] == r.seq_tier_0,
        header_bits(r)[17] == r.high_bitdepth,
        header_bits(r)[18] == r.twelve_bit,
        header_bits(r)[19] == r.monochrome,
        header_bits(r)[20] == r.chroma_subsampling_x,
        header_bits(r)[21] == r.chroma_subsampling_y,
        header_bits(r).subrange(22, 24) == u64_bits(r.chroma_sample_position as u64, 2),
        header_bits(r)[27] == r.initial_presentation_delay_minus_one is Some,
        r.initial_presentation_delay_minus_one matches Some(d)
            ==> header_bits(r).subrange(28, 32) == u64_bits(d as u64, 4),
{
    let h = header_bits(r);
    assert(h.subrange(1, 8) =~= u64_bits(1, 7));
    assert(h.subrange(8, 11) =~= u64_bits(r.seq_profile as u64, 3));
    assert(h.subrange(11, 16) =~= u64_bits(r.seq_level_idx_0 as u64, 5));
    assert(h.subrange(22, 24) =~= u64_bits(r.chroma_sample_position as u64, 2));
    if let Some(d) = r.initial_presentation_delay_minus_one {
        assert(h.subrange(28, 32) =~= u64_bits(d as u64, 4));
    }
}

/// The value of the low `n` bits of a number that fits in them is the number.
proof fn lemma_fitting_value(v: u64, n: nat)
    requires
        n <= 8,
        v < pow2(n),
    ensures
        bits_value(u64_bits(v, n)) == v,
{
    crate::bits::lemma_u64_bits_value(v, n);
    vstd::arithmetic::div_mod::lemma_small_mod(v as nat, pow2(n));
}

/// What `mux` writes, `demux` reads back: for a record whose fields fit
/// their widths, the bytes `mux` appends start with the marker and version
/// one, their header fields are the record's, and the bytes after the
/// header are its configuration OBUs.
pub proof fn lemma_mux_demux_roundtrip(r: AV1CodecConfigurationRecord)
    requires
        fields_fit(r),
    ensures
        ({
            let bytes = bits_to_bytes(header_bits(r)) + bytes_view(r.config_obu);
            let b = bytes_to_bits(bytes);
            &&& bytes.len() >= 4
            &&& b[0]
            &&& field(b, 1, 8) == 1
            &&& header_matches(r, b)
            &&& bytes.skip(4) == bytes_view(r.config_obu)
        }),
{
    let h = header_bits(r);
    lemma_header_layout(r);
    let hb = bits_to_bytes(h);
    assert(hb.len() == 4);
    crate::bits::lemma_bits_to_bytes_to_bits(h);
    crate::bits::lemma_bytes_to_bits_concat(hb, bytes_view(r.config_obu));
    let bytes = hb + bytes_view(r.config_obu);
    let b = bytes_to_bits(bytes);
    assert(b == h + bytes_to_bits(bytes_view(r.config_obu)));
    assert(forall|i: int| 0 <= i < 32 ==> b[i] == h[i]);
    lemma2_to64();
    assert(b.subrange(1, 8) =~= h.subrange(1, 8));
    lemma_fitting_value(1, 7);
    assert(b.subrange(8, 11) =~= h.subrange(8, 11));
    lemma_fitting_value(r.seq_profile as u64, 3);
    assert(b.subrange(11, 16) =~= h.subrange(11, 16));
    lemma_fitting_value(r.seq_level_idx_0 as u64, 5);
    assert(b.subrange(22, 24) =~= h.subrange(22, 24));
    lemma_fitting_value(r.chroma_sample_position as u64, 2);
    if let Some(d) = r.initial_presentation_delay_minus_one {
        assert(b.subrange(28, 32) =~= h.subrange(28, 32));
        lemma_fitting_value(d as u64, 4);
    }
    assert(bytes.skip(4) =~= bytes_view(r.config_obu));
}

/// `size` counts exactly the bytes that `mux` appends: the four header
/// bytes and the configuration OBUs.
pub proof fn lemma_size_is_muxed_length(r: AV1CodecConfigurationRecord, before: Seq<u8>)
    ensures
        bits_to_bytes(header_bits(r)).len() == 4,
        (before + bits_to_bytes(header_bits(r)) + bytes_view(r.config_obu)).len()
            == before.len() + 4 + bytes_view(r.config_obu).len(),
{
    lemma_header_layout(r);
}

/// `u64_bits(0, n)` is a run of zero bits.
proof fn lemma_zero_value_bits(n: nat)
    requires
        n <= 64,
    ensures
        u64_bits(0, n) == zeros(n),
{
    assert forall|i: int| 0 <= i < n implies #[trigger] u64_bits(0, n)[i] == zeros(n)[i] by {
        let k = (n - 1 - i) as u64;
        assert((0u64 >> k) & 1u64 == 0u64) by (bit_vector);
    }
    assert(u64_bits(0, n) =~= zeros(n));
}

/// The reserved bits of the header are written as zero: in the bytes that
/// `mux` writes for the header, the three bits after the chroma sample
/// position are clear, the next bit says whether a presentation delay is
/// present, and the last byte is `0x10` plus the low four bits of the delay,
/// or zero when there is none.
pub proof fn lemma_reserved_bits_clear(r: AV1CodecConfigurationRecord)
    ensures
        ({
            let bytes = bits_to_bytes(header_bits(r));
            let b = bytes_to_bits(bytes);
            &&& bytes.len() == 4
            &&& b.subrange(24, 27) == zeros(3)
            &&& b[27] == r.initial_presentation_delay_minus_one is Some
            &&& r.initial_presentation_delay_minus_one is None ==> b.subrange(28, 32) == zeros(4)
            &&& bytes[3] == match r.initial_presentation_delay_minus_one {
                Some(d) => (16 + d % 16) as u8,
                None => 0u8,
            }
        }),
{
    let h = header_bits(r);
    lemma_header_layout(r);
    crate::bits::lemma_bits_to_bytes_to_bits(h);
    lemma_zero_value_bits(3);
    lemma_zero_value_bits(4);
    assert(h.subrange(24, 27) =~= u64_bits(0, 3));
    let tail = h.subrange(24, 32);
    let bytes = bits_to_bytes(h);
    assert(bytes[3] == bits_value(tail) as u8);
    lemma2_to64();
    match r.initial_presentation_delay_minus_one {
        Some(d) => {
            let one = zeros(3) + seq![true];
            assert(tail =~= one + u64_bits(d as u64, 4));
            crate::bits::lemma_bits_value_concat(one, u64_bits(d as u64, 4));
            crate::bits::lemma_bits_value_leading_zeros(3, seq![true]);
            let t = seq![true];
            assert(t.drop_last() =~= Seq::<bool>::empty());
            assert(t.last());
            assert(bits_value(t.drop_last()) == 0);
            assert(bits_value(t) == 2 * bits_value(t.drop_last()) + 1);
            assert(bits_value(t) == 1);
            crate::bits::lemma_u64_bits_value(d as u64, 4);
            assert(bits_value(tail) == 16 + d % 16);
        },
        None => {
            assert(h.subrange(28, 32) =~= u64_bits(0, 4));
            assert(tail =~= zeros(8));
            crate::bits::lemma_bits_value_zeros(8);
        },
    }
}

impl AV1CodecConfigurationRecord {
    /// Parses a record at the cursor's position. On success the cursor ends
    /// at the end of its data (the rest is the configuration OBUs).
    pub fn demux(reader: &mut Cursor) -> (r: Result<AV1CodecConfigurationRecord, IoError>)
        ensures
            final(reader)@.data == old(reader)@.data,
            ({
                let d = old(reader)@.data;
                let p = old(reader)@.pos;
                let bytes = bytes_from(d, p as int);
                let b = bytes_to_bits(bytes);
                if bytes.len() == 0 {
                    r == Err::<AV1CodecConfigurationRecord, IoError>(IoError::UnexpectedEof) && final(reader)@.pos == d.len()
                } else if !b[0] {
                    r == Err::<AV1CodecConfigurationRecord, IoError>(IoError::MarkerNotSet) && final(reader)@.pos == p + 1
                } else if field(b, 1, 8) != 1 {
                    r == Err::<AV1CodecConfigurationRecord, IoError>(IoError::VersionNotOne) && final(reader)@.pos == p + 1
                } else if bytes.len() < 4 {
                    r == Err::<AV1CodecConfigurationRecord, IoError>(IoError::UnexpectedEof) && final(reader)@.pos == d.len()
                } else {
                    &&& r is Ok
                    &&& header_matches(r->Ok_0, b)
                    &&& bytes_view(r->Ok_0.config_obu) == bytes.skip(4)
                    &&& final(reader)@.pos == d.len()
                }
            }),
    {
        let mut cursor = Cursor::new(empty_bytes());
        std::mem::swap(reader, &mut cursor);
        let mut bit_reader = BitReader::new(cursor);
        let ghost v = bit_reader@;
        let res = Self::demux_header(&mut bit_reader);
        *reader = bit_reader.into_inner();
        proof {
            let bytes = bytes_from(v.cursor.data, v.cursor.pos as int);
            assert(v.tail =~= Seq::<bool>::empty());
            assert(v.upcoming() =~= bytes_to_bits(bytes));
            assert(crate::bit_reader::loads(0, 1) == 1);
            assert(crate::bit_reader::loads(0, 8) == 1);
            assert(crate::bit_reader::loads(0, 32) == 4);
        }
        match res {
            Err(e) => Err(e),
            Ok(mut record) => {
                proof {
                    let bytes = bytes_from(v.cursor.data, v.cursor.pos as int);
                    assert(bytes.len() >= 4);
                    assert(reader@.pos <= reader@.data.len());
                    assert(reader@.data.skip(reader@.pos as int) =~= bytes.skip(4));
                }
                record.config_obu = reader.extract_remaining();
                Ok(record)
            },
        }
    }

    /// The number of bytes `mux` writes: four header bytes and the
    /// configuration OBUs.
    pub fn size(&self) -> (n: u64)
        requires
            bytes_view(self.config_obu).len() + 4 <= u64::MAX,
        ensures
            n == 4 + bytes_view(self.config_obu).len(),
    {
        1 // marker, version
        + 1 // seq_profile, seq_level_idx_0
        + 1 // seq_tier_0, high_bitdepth, twelve_bit, monochrome, chroma_subsampling_x, chroma_subsampling_y, chroma_sample_position
        + 1 // reserved, initial_presentation_delay_present, initial_presentation_delay_minus_one/reserved
        + bytes_as_slice(&self.config_obu).len() as u64
    }

    /// The number of bytes `mux` writes, or `None` when that number does not
    /// fit a `u64`.
    pub fn checked_size(&self) -> (n: Option<u64>)
        ensures
            bytes_view(self.config_obu).len() + 4 <= u64::MAX ==> n == Some((4 + bytes_view(self.config_obu).len()) as u64),
            bytes_view(self.config_obu).len() + 4 > u64::MAX ==> n is None,
    {
        let len = bytes_as_slice(&self.config_obu).len() as u64;
        if len <= u64::MAX - 4 {
            Some(self.size())
        } else {
            None
        }
    }

    /// Appends the record to `writer`: the header bits (fields keep only as
    /// many low bits as the layout gives them), then the configuration OBUs.
    pub fn mux(&self, writer: &mut Vec<u8>) -> (r: Result<(), IoError>)
        ensures
            r is Ok,
            header_bits(*self).len() == 32,
            final(writer)@ == old(writer)@ + bits_to_bytes(header_bits(*self)) + bytes_view(self.config_obu),
    {
        let mut out: Vec<u8> = Vec::new();
        std::mem::swap(writer, &mut out);
        let ghost before = out@;
        let mut bit_writer = BitWriter::<64>::new(out);
        proof {
            reveal(bits_so_far);
            assert(bits_so_far(bit_writer@) =~= bytes_to_bits(before));
        }
        self.mux_header(&mut bit_writer);
        proof {
            bit_writer.lemma_wf();
            reveal(bits_so_far);
            lemma_header_packed(bit_writer@, before, header_bits(*self));
        }
        let mut out = match bit_writer.finish() {
            Ok(o) => o,
            Err(e) => return Err(e),
        };
        let obu = bytes_as_slice(&self.config_obu);
        let mut i: usize = 0;
        let ghost start = out@;
        while i < obu.len()
            invariant
                obu@ == bytes_view(self.config_obu),
                i <= bytes_view(self.config_obu).len(),
                out@ == start + bytes_view(self.config_obu).take(i as int),
            decreases bytes_view(self.config_obu).len() - i,
        {
            out.push(obu[i]);
            i = i + 1;
            assert(out@ =~= start + bytes_view(self.config_obu).take(i as int));
        }
        assert(bytes_view(self.config_obu).take(i as int) =~= bytes_view(self.config_obu));
        *writer = out;
        Ok(())
    }

    /// Writes the header fields, appending [`header_bits`] to the stream.
    #[verifier::rlimit(100)]
    #[verifier::spinoff_prover]
    fn mux_header(&self, bit_writer: &mut BitWriter<64>)
        requires
            old(bit_writer).wf(),
        ensures
            final(bit_writer).wf(),
            bits_so_far(final(bit_writer)@) == bits_so_far(old(bit_writer)@) + header_bits(*self),
            header_bits(*self).len() == 32,
    {
        let ghost s0 = bits_so_far(bit_writer@);
        let ghost mut acc: Seq<bool> = seq![true];
        put_bit(bit_writer, true); // marker
        proof { assert(bits_so_far(bit_writer@) =~= s0 + acc); }
        put_bits(bit_writer, 1, 7); // version
        proof { lemma_append(s0, acc, u64_bits(1, 7)); acc = acc + u64_bits(1, 7); }
        put_bits(bit_writer, self.seq_profile as u64, 3);
        proof { lemma_append(s0, acc, u64_bits(self.seq_profile as u64, 3)); acc = acc + u64_bits(self.seq_profile as u64, 3); }
        put_bits(bit_writer, self.seq_level_idx_0 as u64, 5);
        proof {
            lemma_append(s0, acc, u64_bits(self.seq_level_idx_0 as u64, 5));
            acc = acc + u64_bits(self.seq_level_idx_0 as u64, 5);
        }
        let ghost s1 = bits_so_far(bit_writer@);
        put_bit(bit_writer, self.seq_tier_0);
        put_bit(bit_writer, self.high_bitdepth);
        put_bit(bit_writer, self.twelve_bit);
        put_bit(bit_writer, self.monochrome);
        put_bit(bit_writer, self.chroma_subsampling_x);
        put_bit(bit_writer, self.chroma_subsampling_y);
        proof {
            let flags = seq![self.seq_tier_0, self.high_bitdepth, self.twelve_bit, self.monochrome,
                self.chroma_subsampling_x, self.chroma_subsampling_y];
            assert(bits_so_far(bit_writer@) =~= s1 + flags);
            lemma_append(s0, acc, flags);
            acc = acc + flags;
        }
        put_bits(bit_writer, self.chroma_sample_position as u64, 2);
        proof {
            lemma_append(s0, acc, u64_bits(self.chroma_sample_position as u64, 2));
            acc = acc + u64_bits(self.chroma_sample_position as u64, 2);
        }
        put_bits(bit_writer, 0, 3); // reserved 3 bits
        proof { lemma_append(s0, acc, u64_bits(0, 3)); acc = acc + u64_bits(0, 3); }
        let ghost s2 = bits_so_far(bit_writer@);
        match self.initial_presentation_delay_minus_one {
            Some(initial_presentation_delay_minus_one) => {
                put_bit(bit_writer, true);
                put_bits(bit_writer, initial_presentation_delay_minus_one as u64, 4);
                proof {
                    assert(bits_so_far(bit_writer@) =~= s2 + (seq![true] + u64_bits(initial_presentation_delay_minus_one as u64, 4)));
                }
            },
            None => {
                put_bit(bit_writer, false);
                put_bits(bit_writer, 0, 4); // reserved 4 bits
                proof {
                    assert(bits_so_far(bit_writer@) =~= s2 + (seq![false] + u64_bits(0, 4)));
                }
            },
        }
        proof {
            let tail = match self.initial_presentation_delay_minus_one {
                Some(d) => seq![true] + u64_bits(d as u64, 4),
                None => seq![false] + u64_bits(0, 4),
            };
            lemma_append(s0, acc, tail);
            assert(acc + tail == header_bits(*self));
        }
    }

    /// Reads the four header bytes.
    fn demux_header(bit_reader: &mut BitReader) -> (r: Result<AV1CodecConfigurationRecord, IoError>)
        requires
            old(bit_reader)@.wf(),
            old(bit_reader)@.bit_pos == 0,
        ensures
            final(bit_reader)@.wf(),
            ({
                let v = old(bit_reader)@;
                let b = v.upcoming();
                if b.len() == 0 {
                    r == Err::<AV1CodecConfigurationRecord, IoError>(IoError::UnexpectedEof) && final(bit_reader)@ == v.at_end()
                } else if !b[0] {
                    r == Err::<AV1CodecConfigurationRecord, IoError>(IoError::MarkerNotSet) && final(bit_reader)@ == v.after_read(1)
                } else if field(b, 1, 8) != 1 {
                    r == Err::<AV1CodecConfigurationRecord, IoError>(IoError::VersionNotOne) && final(bit_reader)@ == v.after_read(8)
                } else if b.len() < 32 {
                    r == Err::<AV1CodecConfigurationRecord, IoError>(IoError::UnexpectedEof) && final(bit_reader)@ == v.at_end()
                } else {
                    &&& r is Ok
                    &&& header_matches(r->Ok_0, b)
                    &&& bytes_view(r->Ok_0.config_obu) == Seq::<u8>::empty()
                    &&& final(bit_reader)@ == v.after_read(32)
                }
            }),
    {
        let ghost v = bit_reader@;
        let ghost b = v.upcoming();
        proof {
            crate::bit_reader::lemma_after_read_zero(v);
            assert(b.len() % 8 == 0) by {
                assert(v.tail.len() == 0);
                vstd::arithmetic::div_mod::lemma_fundamental_div_mod_converse(
                    b.len() as int, 8, bytes_from(v.cursor.data, v.cursor.pos as int).len() as int, 0);
            }
        }
        let marker = match read_flag(bit_reader, Ghost(v), Ghost(0)) {
            Ok(m) => m,
            Err(e) => return Err(e),
        };
        if !marker {
            return Err(IoError::MarkerNotSet);
        }
        proof {
            assert(b.len() >= 8);
        }
        let version = match read_field(bit_reader, 7, Ghost(v), Ghost(1)) {
            Ok(x) => x,
            Err(e) => return Err(e),
        };
        if version != 1 {
            return Err(IoError::VersionNotOne);
        }
        let seq_profile = match read_field(bit_reader, 3, Ghost(v), Ghost(8)) {
            Ok(x) => x,
            Err(e) => return Err(e),
        };
        let seq_level_idx_0 = match read_field(bit_reader, 5, Ghost(v), Ghost(11)) {
            Ok(x) => x,
            Err(e) => return Err(e),
        };
        let seq_tier_0 = match read_flag(bit_reader, Ghost(v), Ghost(16)) {
            Ok(x) => x,
            Err(e) => return Err(e),
        };
        let high_bitdepth = match read_flag(bit_reader, Ghost(v), Ghost(17)) {
            Ok(x) => x,
            Err(e) => return Err(e),
        };
        let twelve_bit = match read_flag(bit_reader, Ghost(v), Ghost(18)) {
            Ok(x) => x,
            Err(e) => return Err(e),
        };
        let monochrome = match read_flag(bit_reader, Ghost(v), Ghost(19)) {
            Ok(x) => x,
            Err(e) => return Err(e),
        };
        let chroma_subsampling_x = match read_flag(bit_reader, Ghost(v), Ghost(20)) {
            Ok(x) => x,
            Err(e) => return Err(e),
        };
        let chroma_subsampling_y = match read_flag(bit_reader, Ghost(v), Ghost(21)) {
            Ok(x) => x,
            Err(e) => return Err(e),
        };
        let chroma_sample_position = match read_field(bit_reader, 2, Ghost(v), Ghost(22)) {
            Ok(x) => x,
            Err(e) => return Err(e),
        };
        // reserved 3 bits
        match skip_reserved(bit_reader, 3, Ghost(v), Ghost(24)) {
            Ok(()) => {},
            Err(e) => return Err(e),
        }
        let present = match read_flag(bit_reader, Ghost(v), Ghost(27)) {
            Ok(x) => x,
            Err(e) => return Err(e),
        };
        let initial_presentation_delay_minus_one = if present {
            match read_field(bit_reader, 4, Ghost(v), Ghost(28)) {
                Ok(x) => Some(x),
                Err(e) => return Err(e),
            }
        } else {
            // reserved 4 bits
            match skip_reserved(bit_reader, 4, Ghost(v), Ghost(28)) {
                Ok(()) => {},
                Err(e) => return Err(e),
            }
            None
        };
        proof {
            assert(bit_reader@.bit_pos == 0) by {
                assert(32int % 8 == 0);
            }
        }
        if !bit_reader.is_aligned() {
            return Err(IoError::NotAligned);
        }
        Ok(AV1CodecConfigurationRecord {
            seq_profile,
            seq_level_idx_0,
            seq_tier_0,
            high_bitdepth,
            twelve_bit,
            monochrome,
            chroma_subsampling_x,
            chroma_subsampling_y,
            chroma_sample_position,
            initial_presentation_delay_minus_one,
            config_obu: empty_bytes(),
        })
    }
}

} // verus!
