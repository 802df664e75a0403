use bytes::Bytes;
use scuffle::bit_reader::BitReader;
use scuffle::bit_writer::BitWriter;
use scuffle::cursor::Cursor;
use scuffle::exp_golomb::{read_exp_golomb, read_signed_exp_golomb, write_exp_golomb, write_signed_exp_golomb};

pub fn get_remaining_bits(reader: &BitReader) -> usize {
    let remaining = reader.get_ref().remaining();

    if reader.is_aligned() {
        remaining * 8
    } else {
        remaining * 8 + (8 - reader.bit_pos() as usize)
    }
}

#[test]
fn test_exp_glob_decode() {
    let mut bit_writer = BitWriter::<64>::default();

    bit_writer.write_bits(0b1, 1).unwrap(); // 0
    bit_writer.write_bits(0b010, 3).unwrap(); // 1
    bit_writer.write_bits(0b011, 3).unwrap(); // 2
    bit_writer.write_bits(0b00100, 5).unwrap(); // 3
    bit_writer.write_bits(0b00101, 5).unwrap(); // 4
    bit_writer.write_bits(0b00110, 5).unwrap(); // 5
    bit_writer.write_bits(0b00111, 5).unwrap(); // 6

    let data = bit_writer.finish().unwrap();

    let mut bit_reader = BitReader::new(Cursor::new(Bytes::from(data)));

    let remaining_bits = get_remaining_bits(&bit_reader);

    let result = read_exp_golomb(&mut bit_reader).unwrap();
    assert_eq!(result, 0);
    assert_eq!(get_remaining_bits(&bit_reader), remaining_bits - 1);

    let result = read_exp_golomb(&mut bit_reader).unwrap();
    assert_eq!(result, 1);
    assert_eq!(get_remaining_bits(&bit_reader), remaining_bits - 4);

    let result = read_exp_golomb(&mut bit_reader).unwrap();
    assert_eq!(result, 2);
    assert_eq!(get_remaining_bits(&bit_reader), remaining_bits - 7);

    let result = read_exp_golomb(&mut bit_reader).unwrap();
    assert_eq!(result, 3);
    assert_eq!(get_remaining_bits(&bit_reader), remaining_bits - 12);

    let result = read_exp_golomb(&mut bit_reader).unwrap();
    assert_eq!(result, 4);
    assert_eq!(get_remaining_bits(&bit_reader), remaining_bits - 17);

    let result = read_exp_golomb(&mut bit_reader).unwrap();
    assert_eq!(result, 5);
    assert_eq!(get_remaining_bits(&bit_reader), remaining_bits - 22);

    let result = read_exp_golomb(&mut bit_reader).unwrap();
    assert_eq!(result, 6);
    assert_eq!(get_remaining_bits(&bit_reader), remaining_bits - 27);
}

#[test]
fn test_signed_exp_glob_decode() {
    let mut bit_writer = BitWriter::<64>::default();

    bit_writer.write_bits(0b1, 1).unwrap(); // 0
    bit_writer.write_bits(0b010, 3).unwrap(); // 1
    bit_writer.write_bits(0b011, 3).unwrap(); // -1
    bit_writer.write_bits(0b00100, 5).unwrap(); // 2
    bit_writer.write_bits(0b00101, 5).unwrap(); // -2
    bit_writer.write_bits(0b00110, 5).unwrap(); // 3
    bit_writer.write_bits(0b00111, 5).unwrap(); // -3

    let data = bit_writer.finish().unwrap();

    let mut bit_reader = BitReader::new(Cursor::new(Bytes::from(data)));

    let remaining_bits = get_remaining_bits(&bit_reader);

    let result = read_signed_exp_golomb(&mut bit_reader).unwrap();
    assert_eq!(result, 0);
    assert_eq!(get_remaining_bits(&bit_reader), remaining_bits - 1);

    let result = read_signed_exp_golomb(&mut bit_reader).unwrap();
    assert_eq!(result, 1);
    assert_eq!(get_remaining_bits(&bit_reader), remaining_bits - 4);

    let result = read_signed_exp_golomb(&mut bit_reader).unwrap();
    assert_eq!(result, -1);
    assert_eq!(get_remaining_bits(&bit_reader), remaining_bits - 7);

    let result = read_signed_exp_golomb(&mut bit_reader).unwrap();
    assert_eq!(result, 2);
    assert_eq!(get_remaining_bits(&bit_reader), remaining_bits - 12);

    let result = read_signed_exp_golomb(&mut bit_reader).unwrap();
    assert_eq!(result, -2);
    assert_eq!(get_remaining_bits(&bit_reader), remaining_bits - 17);

    let result = read_signed_exp_golomb(&mut bit_reader).unwrap();
    assert_eq!(result, 3);
    assert_eq!(get_remaining_bits(&bit_reader), remaining_bits - 22);

    let result = read_signed_exp_golomb(&mut bit_reader).unwrap();
    assert_eq!(result, -3);
    assert_eq!(get_remaining_bits(&bit_reader), remaining_bits - 27);
}

#[test]
fn test_exp_glob_encode() {
    let mut bit_writer = BitWriter::<64>::default();

    write_exp_golomb(&mut bit_writer, 0).unwrap();
    write_exp_golomb(&mut bit_writer, 1).unwrap();
    write_exp_golomb(&mut bit_writer, 2).unwrap();
    write_exp_golomb(&mut bit_writer, 3).unwrap();
    write_exp_golomb(&mut bit_writer, 4).unwrap();
    write_exp_golomb(&mut bit_writer, 5).unwrap();
    write_exp_golomb(&mut bit_writer, 6).unwrap();
    write_exp_golomb(&mut bit_writer, u64::MAX - 1).unwrap();

    let data = bit_writer.finish().unwrap();

    let mut bit_reader = BitReader::new(Cursor::new(Bytes::from(data)));

    let remaining_bits = get_remaining_bits(&bit_reader);

    let result = read_exp_golomb(&mut bit_reader).unwrap();
    assert_eq!(result, 0);
    assert_eq!(get_remaining_bits(&bit_reader), remaining_bits - 1);

    let result = read_exp_golomb(&mut bit_reader).unwrap();
    assert_eq!(result, 1);
    assert_eq!(get_remaining_bits(&bit_reader), remaining_bits - 4);

    let result = read_exp_golomb(&mut bit_reader).unwrap();
    assert_eq!(result, 2);
    assert_eq!(get_remaining_bits(&bit_reader), remaining_bits - 7);

    let result = read_exp_golomb(&mut bit_reader).unwrap();
    assert_eq!(result, 3);
    assert_eq!(get_remaining_bits(&bit_reader), remaining_bits - 12);

    let result = read_exp_golomb(&mut bit_reader).unwrap();
    assert_eq!(result, 4);
    assert_eq!(get_remaining_bits(&bit_reader), remaining_bits - 17);

    let result = read_exp_golomb(&mut bit_reader).unwrap();
    assert_eq!(result, 5);
    assert_eq!(get_remaining_bits(&bit_reader), remaining_bits - 22);

    let result = read_exp_golomb(&mut bit_reader).unwrap();
    assert_eq!(result, 6);
    assert_eq!(get_remaining_bits(&bit_reader), remaining_bits - 27);

    let result = read_exp_golomb(&mut bit_reader).unwrap();
    assert_eq!(result, u64::MAX - 1);
    assert_eq!(get_remaining_bits(&bit_reader), remaining_bits - 154);
}

#[test]
fn test_signed_exp_glob_encode() {
    let mut bit_writer = BitWriter::<64>::default();

    write_signed_exp_golomb(&mut bit_writer, 0).unwrap();
    write_signed_exp_golomb(&mut bit_writer, 1).unwrap();
    write_signed_exp_golomb(&mut bit_writer, -1).unwrap();
    write_signed_exp_golomb(&mut bit_writer, 2).unwrap();
    write_signed_exp_golomb(&mut bit_writer, -2).unwrap();
    write_signed_exp_golomb(&mut bit_writer, 3).unwrap();
    write_signed_exp_golomb(&mut bit_writer, -3).unwrap();
    write_signed_exp_golomb(&mut bit_writer, i64::MAX).unwrap();

    let data = bit_writer.finish().unwrap();

    let mut bit_reader = BitReader::new(Cursor::new(Bytes::from(data)));

    let remaining_bits = get_remaining_bits(&bit_reader);

    let result = read_signed_exp_golomb(&mut bit_reader).unwrap();
    assert_eq!(result, 0);
    assert_eq!(get_remaining_bits(&bit_reader), remaining_bits - 1);

    let result = read_signed_exp_golomb(&mut bit_reader).unwrap();
    assert_eq!(result, 1);
    assert_eq!(get_remaining_bits(&bit_reader), remaining_bits - 4);

    let result = read_signed_exp_golomb(&mut bit_reader).unwrap();
    assert_eq!(result, -1);
    assert_eq!(get_remaining_bits(&bit_reader), remaining_bits - 7);

    let result = read_signed_exp_golomb(&mut bit_reader).unwrap();
    assert_eq!(result, 2);
    assert_eq!(get_remaining_bits(&bit_reader), remaining_bits - 12);

    let result = read_signed_exp_golomb(&mut bit_reader).unwrap();
    assert_eq!(result, -2);
    assert_eq!(get_remaining_bits(&bit_reader), remaining_bits - 17);

    let result = read_signed_exp_golomb(&mut bit_reader).unwrap();
    assert_eq!(result, 3);
    assert_eq!(get_remaining_bits(&bit_reader), remaining_bits - 22);

    let result = read_signed_exp_golomb(&mut bit_reader).unwrap();
    assert_eq!(result, -3);
    assert_eq!(get_remaining_bits(&bit_reader), remaining_bits - 27);

    let result = read_signed_exp_golomb(&mut bit_reader).unwrap();
    assert_eq!(result, i64::MAX);
    assert_eq!(get_remaining_bits(&bit_reader), remaining_bits - 154);
}

#[test]
fn test_exp_golomb_truncated_input_fails() {
    let mut reader = BitReader::new_from_slice(vec![0b0000_0000]);
    assert!(read_exp_golomb(&mut reader).is_err());
    let mut reader = BitReader::new_from_slice(vec![0b0000_0100]);
    assert!(read_exp_golomb(&mut reader).is_err());
    let mut reader = BitReader::new_from_slice(vec![0b0001_0000]);
    assert_eq!(read_exp_golomb(&mut reader).unwrap(), 7);
}

#[test]
fn test_exp_golomb_roundtrip_values() {
    let values = [0u64, 1, 7, 8, 255, 256, 1 << 40, u64::MAX - 1];
    let mut bit_writer = BitWriter::<64>::default();
    for v in values {
        write_exp_golomb(&mut bit_writer, v).unwrap();
    }
    let data = bit_writer.finish().unwrap();
    let mut reader = BitReader::new_from_slice(data);
    for v in values {
        assert_eq!(read_exp_golomb(&mut reader).unwrap(), v);
    }

    let signed = [0i64, 5, -5, i64::MAX, i64::MIN + 1];
    let mut bit_writer = BitWriter::<64>::default();
    for v in signed {
        write_signed_exp_golomb(&mut bit_writer, v).unwrap();
    }
    let data = bit_writer.finish().unwrap();
    let mut reader = BitReader::new_from_slice(data);
    for v in signed {
        assert_eq!(read_signed_exp_golomb(&mut reader).unwrap(), v);
    }
}

#[test]
fn test_exp_golomb_exact_code() {
    let mut bit_writer = BitWriter::<64>::default();
    write_exp_golomb(&mut bit_writer, 3).unwrap();
    assert_eq!(bit_writer.finish().unwrap(), vec![0b0010_0000]);
}
