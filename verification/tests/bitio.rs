use scuffle::bit_reader::BitReader;
use scuffle::bit_writer::BitWriter;
use bytes::Bytes;
use scuffle::cursor::{Cursor, SeekFrom};
use scuffle::error::{ErrorKind, IoError};

#[test]
fn test_bit_reader() {
    let binary = 0b10101010110011001111000101010101u32;

    let mut reader = BitReader::new_from_slice(binary.to_be_bytes().to_vec());
    for i in 0..32 {
        assert_eq!(
            reader.read_bit().unwrap(),
            (binary & (1 << (31 - i))) != 0,
            "bit {} is not correct",
            i
        );
    }

    assert!(reader.read_bit().is_err(), "there shouldnt be any bits left");
}

#[test]
fn test_bit_reader_read_bits() {
    let binary = 0b10101010110011001111000101010101u32;
    let mut reader = BitReader::new_from_slice(binary.to_be_bytes().to_vec());
    let cases = [
        (3, 0b101),
        (4, 0b0101),
        (3, 0b011),
        (3, 0b001),
        (3, 0b100),
        (3, 0b111),
        (5, 0b10001),
        (1, 0b0),
        (7, 0b1010101),
    ];

    for (i, (count, expected)) in cases.into_iter().enumerate() {
        assert_eq!(
            reader.read_bits(count).ok(),
            Some(expected),
            "reading {} bits ({i}) are not correct",
            count
        );
    }

    assert!(reader.read_bit().is_err(), "there shouldnt be any bits left");
}

#[test]
fn test_bit_reader_align() {
    let mut reader = BitReader::new_from_slice(vec![0b10000000, 0b10000000, 0b10000000, 0b10000000, 0b10000000, 0b10000000]);

    for i in 0..6 {
        let pos = reader.get_ref().position();
        assert_eq!(pos, i, "stream pos");
        assert_eq!(reader.bit_pos(), 0, "bit pos");
        assert!(reader.read_bit().unwrap(), "bit {} is not correct", i);
        reader.align().unwrap();
        let pos = reader.get_ref().position();
        assert_eq!(pos, i + 1, "stream pos");
        assert_eq!(reader.bit_pos(), 0, "bit pos");
    }

    assert!(reader.read_bit().is_err(), "there shouldnt be any bits left");
}

#[test]
fn test_bit_reader_io_read() {
    let binary = 0b10101010110011001111000101010101u32;
    let mut reader = BitReader::new_from_slice(binary.to_be_bytes().to_vec());

    // Aligned read (reads the underlying cursor directly)
    let mut buf = vec![0; 1];
    reader.read(&mut buf).unwrap();
    assert_eq!(buf, [0b10101010]);

    // Unaligned read
    assert_eq!(reader.read_bits(1).unwrap(), 0b1);
    let mut buf = vec![0; 1];
    reader.read(&mut buf).unwrap();
    assert_eq!(buf, [0b10011001]);
}

#[test]
fn test_bit_reader_seek() {
    let binary = 0b10101010110011001111000101010101u32;
    let mut reader = BitReader::new_from_slice(binary.to_be_bytes().to_vec());

    reader.seek_bits(5).unwrap();
    assert_eq!(reader.get_ref().position(), 1);
    assert_eq!(reader.bit_pos(), 5);
    assert_eq!(reader.read_bits(1).unwrap(), 0b0);
    assert_eq!(reader.bit_pos(), 6);

    reader.seek_bits(10).unwrap();
    assert_eq!(reader.get_ref().position(), 2);
    assert_eq!(reader.bit_pos(), 0);
    assert_eq!(reader.read_bits(1).unwrap(), 0b1);
    assert_eq!(reader.bit_pos(), 1);
    assert_eq!(reader.get_ref().position(), 3);

    reader.seek_bits(-8).unwrap();
    assert_eq!(reader.get_ref().position(), 2);
    assert_eq!(reader.bit_pos(), 1);
    assert_eq!(reader.read_bits(1).unwrap(), 0b1);
    assert_eq!(reader.bit_pos(), 2);
    assert_eq!(reader.get_ref().position(), 2);
}

#[test]
fn test_bit_reader_io_seek() {
    let binary = 0b10101010110011001111000101010101u32;
    let mut reader = BitReader::new_from_slice(binary.to_be_bytes().to_vec());
    reader.seek(SeekFrom::Start(1)).unwrap();
    assert_eq!(reader.bit_pos(), 0);
    assert_eq!(reader.get_ref().position(), 1);
    assert_eq!(reader.read_bits(1).unwrap(), 0b1);
    assert_eq!(reader.bit_pos(), 1);
    assert_eq!(reader.get_ref().position(), 2);

    reader.seek(SeekFrom::Current(1)).unwrap();
    assert_eq!(reader.bit_pos(), 1);
    assert_eq!(reader.get_ref().position(), 3);
    assert_eq!(reader.read_bits(1).unwrap(), 0b1);
    assert_eq!(reader.bit_pos(), 2);
    assert_eq!(reader.get_ref().position(), 3);

    reader.seek(SeekFrom::Current(-1)).unwrap();
    assert_eq!(reader.bit_pos(), 2);
    assert_eq!(reader.get_ref().position(), 2);
    assert_eq!(reader.read_bits(1).unwrap(), 0b0);
    assert_eq!(reader.bit_pos(), 3);
    assert_eq!(reader.get_ref().position(), 2);

    reader.seek(SeekFrom::End(-1)).unwrap();
    assert_eq!(reader.bit_pos(), 0);
    assert_eq!(reader.get_ref().position(), 3);
    assert_eq!(reader.read_bits(1).unwrap(), 0b0);
    assert_eq!(reader.bit_pos(), 1);
    assert_eq!(reader.get_ref().position(), 4);
}

#[test]
fn test_bit_reader_reads_past_end_fail_and_stay_at_end() {
    let mut reader = BitReader::new_from_slice(vec![0xff]);
    assert_eq!(reader.read_bits(4).unwrap(), 0b1111);
    assert!(reader.read_bits(5).is_err());
    assert_eq!(reader.bit_pos(), 0);
    assert_eq!(reader.get_ref().position(), 1);
    assert!(reader.seek_bits(-16).is_err());
    assert!(reader.seek(SeekFrom::Current(-2)).is_err());
}

#[test]
fn test_bit_reader_read_bits_wide() {
    let mut reader = BitReader::new_from_slice(vec![0xff; 9]);
    // 72 bits: only the lowest 64 are kept.
    assert_eq!(reader.read_bits(72).unwrap(), u64::MAX);
    assert!(reader.read_bit().is_err());
}

#[test]
fn test_bit_writer() {
    let mut bit_writer = BitWriter::<64>::default();

    bit_writer.write_bits(0b11111111, 8).unwrap();
    assert_eq!(bit_writer.bit_pos(), 0);
    assert!(bit_writer.is_aligned());

    bit_writer.write_bits(0b0000, 4).unwrap();
    assert_eq!(bit_writer.bit_pos(), 4);
    assert!(!bit_writer.is_aligned());
    bit_writer.align().unwrap();
    assert_eq!(bit_writer.bit_pos(), 0);
    assert!(bit_writer.is_aligned());

    bit_writer.write_bits(0b1010, 4).unwrap();
    assert_eq!(bit_writer.bit_pos(), 4);
    assert!(!bit_writer.is_aligned());

    bit_writer.write_bits(0b101010101010, 12).unwrap();
    assert_eq!(bit_writer.bit_pos(), 0);
    assert!(bit_writer.is_aligned());

    bit_writer.write_bit(true).unwrap();
    assert_eq!(bit_writer.bit_pos(), 1);
    assert!(!bit_writer.is_aligned());

    assert_eq!(
        bit_writer.finish().unwrap(),
        vec![0b11111111, 0b00000000, 0b10101010, 0b10101010, 0b10000000]
    );
}

#[test]
fn test_flush_buffer() {
    let mut bit_writer = BitWriter::<64>::default();

    bit_writer.write_bits(0b11111111, 8).unwrap();
    assert_eq!(bit_writer.bit_pos(), 0);
    assert!(bit_writer.is_aligned());
    assert_eq!(bit_writer.get_ref().len(), 0, "underlying writer should be empty");
    bit_writer.flush_buffer().unwrap();
    assert_eq!(bit_writer.get_ref(), &[0b11111111], "underlying writer should have one byte");

    bit_writer.write_bits(0b0000, 4).unwrap();
    assert_eq!(bit_writer.bit_pos(), 4);
    assert!(!bit_writer.is_aligned());
    assert_eq!(bit_writer.get_ref().len(), 1, "underlying writer should have one byte");
    bit_writer.flush_buffer().unwrap();
    assert_eq!(bit_writer.get_ref(), &[0b11111111], "underlying writer should have one bytes");

    bit_writer.write_bits(0b1010, 4).unwrap();
    assert_eq!(bit_writer.bit_pos(), 0);
    assert!(bit_writer.is_aligned());
    assert_eq!(bit_writer.get_ref().len(), 1, "underlying writer should have one byte");
    bit_writer.flush_buffer().unwrap();
    assert_eq!(
        bit_writer.get_ref(),
        &[0b11111111, 0b00001010],
        "underlying writer should have two bytes"
    );
}

#[test]
fn test_io_write() {
    let inner = Vec::new();
    let mut bit_writer = BitWriter::<64>::new(inner);

    bit_writer.write_bits(0b11111111, 8).unwrap();
    assert_eq!(bit_writer.bit_pos(), 0);
    assert!(bit_writer.is_aligned());
    // We should have buffered the write
    assert_eq!(bit_writer.get_ref().as_slice(), &[]);

    bit_writer.write(&[1, 2, 3]).unwrap();
    assert_eq!(bit_writer.bit_pos(), 0);
    assert!(bit_writer.is_aligned());
    // since we did a write on an aligned bit_writer
    // we should have flushed the buffer and then written directly to the underlying
    // writer
    assert_eq!(bit_writer.get_ref().as_slice(), &[255, 1, 2, 3]);

    bit_writer.write_bit(true).unwrap();

    bit_writer.write_bits(0b1010, 4).unwrap();

    bit_writer.write(&[0b11111111, 0b00000000, 0b11111111, 0b00000000]).unwrap();

    // Since the writer was not aligned we should have buffered the writes
    assert_eq!(bit_writer.get_ref().as_slice(), &[255, 1, 2, 3]);

    let inner = bit_writer.finish().unwrap();

    assert_eq!(
        inner,
        vec![255, 1, 2, 3, 0b11010111, 0b11111000, 0b00000111, 0b11111000, 0b00000000]
    );
}

#[test]
fn test_flush() {
    let inner = Vec::new();
    let mut bit_writer = BitWriter::<64>::new(inner);

    bit_writer.write_bits(0b10100000, 8).unwrap();

    bit_writer.flush().unwrap();

    assert_eq!(bit_writer.get_ref().as_slice(), &[0b10100000]);
    assert_eq!(bit_writer.bit_pos(), 0);
    assert!(bit_writer.is_aligned());
}

#[test]
fn test_bit_writer_full_buffer_is_handed_over() {
    let mut bit_writer = BitWriter::<1>::new(Vec::new());
    bit_writer.write_bits(0b1011, 4).unwrap();
    assert!(bit_writer.get_ref().is_empty());
    bit_writer.write_bits(0b0110, 4).unwrap();
    assert_eq!(bit_writer.get_ref().as_slice(), &[0b10110110]);
    bit_writer.write_bits(0b01, 2).unwrap();
    assert_eq!(bit_writer.finish().unwrap(), vec![0b10110110, 0b01000000]);
}

#[test]
fn test_write_then_read_roundtrip() {
    let mut bit_writer = BitWriter::<64>::default();
    bit_writer.write_bits(0b101, 3).unwrap();
    bit_writer.write_bits(0xdead_beef, 32).unwrap();
    bit_writer.write_bit(false).unwrap();
    let data = bit_writer.finish().unwrap();
    assert_eq!(data.len(), 5);

    let mut reader = BitReader::new(Cursor::new(Bytes::from(data)));
    assert_eq!(reader.read_bits(3).unwrap(), 0b101);
    assert_eq!(reader.read_bits(32).unwrap(), 0xdead_beef);
    assert!(!reader.read_bit().unwrap());
    assert_eq!(reader.read_bits(4).unwrap(), 0);
    assert!(reader.read_bit().is_err());
}

#[test]
fn test_cursor_extract() {
    let mut cursor = Cursor::new(Bytes::from_static(&[1, 2, 3, 4, 5]));
    assert_eq!(cursor.remaining(), 5);
    assert_eq!(cursor.extract_bytes(2).unwrap(), Bytes::from_static(&[1, 2]));
    let err = cursor.extract_bytes(4).unwrap_err();
    assert_eq!(err, IoError::NotEnoughBytes);
    assert_eq!(err.message(), "not enough bytes");
    assert_eq!(err.kind(), ErrorKind::UnexpectedEof);
    assert_eq!(cursor.position(), 2);
    assert_eq!(cursor.extract_remaining(), Bytes::from_static(&[3, 4, 5]));
    assert_eq!(cursor.remaining(), 0);
}

#[test]
fn test_bytes_cursor() {
    let mut cursor = Cursor::new(Bytes::from_static(&[1, 2, 3, 4, 5]));
    let remaining = cursor.extract_remaining();
    assert_eq!(remaining, Bytes::from_static(&[1, 2, 3, 4, 5]));
}

#[test]
fn test_reader_position_after_reads() {
    let mut reader = BitReader::new_from_slice(vec![0xff, 0x00, 0xaa, 0x55]);
    reader.read_bits(3).unwrap();
    reader.read_bit().unwrap();
    reader.read_bits(6).unwrap();
    assert_eq!(reader.bit_pos(), 10 % 8);
    assert!(!reader.is_aligned());
    reader.align().unwrap();
    assert!(reader.is_aligned());
    assert_eq!(reader.into_inner().position(), 2);
}

#[test]
fn test_writer_hands_over_whole_buffers() {
    let mut writer = BitWriter::<2>::new(vec![9]);
    writer.write_bits(0xabc, 12).unwrap();
    assert_eq!(writer.get_ref(), &vec![9]);
    assert_eq!(writer.bit_pos(), 4);
    writer.write_bits(0xd, 4).unwrap();
    assert_eq!(writer.get_ref(), &vec![9, 0xab, 0xcd]);
    assert!(writer.is_aligned());
    writer.write_bit(true).unwrap();
    assert_eq!(writer.bit_pos(), 1);
    assert_eq!(writer.get_ref(), &vec![9, 0xab, 0xcd]);
}
