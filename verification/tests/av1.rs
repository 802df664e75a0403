use bytes::Bytes;
use scuffle::av1::AV1CodecConfigurationRecord;
use scuffle::cursor::Cursor;
use scuffle::error::{ErrorKind, IoError};

fn demux(data: &[u8]) -> Result<AV1CodecConfigurationRecord, IoError> {
    AV1CodecConfigurationRecord::demux(&mut Cursor::new(Bytes::copy_from_slice(data)))
}

#[test]
fn test_config_demux() {
    let data = b"\x81\r\x0c\0\n\x0f\0\0\0j\xef\xbf\xe1\xbc\x02\x19\x90\x10\x10\x10@".to_vec();

    let config = AV1CodecConfigurationRecord::demux(&mut Cursor::new(Bytes::from(data))).unwrap();

    assert_eq!(config.seq_profile, 0);
    assert_eq!(config.seq_level_idx_0, 13);
    assert!(!config.seq_tier_0);
    assert!(!config.high_bitdepth);
    assert!(!config.twelve_bit);
    assert!(!config.monochrome);
    assert!(config.chroma_subsampling_x);
    assert!(config.chroma_subsampling_y);
    assert_eq!(config.chroma_sample_position, 0);
    assert_eq!(config.initial_presentation_delay_minus_one, None);
    assert_eq!(
        config.config_obu,
        Bytes::from_static(b"\n\x0f\0\0\0j\xef\xbf\xe1\xbc\x02\x19\x90\x10\x10\x10@")
    );
}

#[test]
fn test_marker_is_not_set() {
    let data = vec![0b00000000];

    let err = AV1CodecConfigurationRecord::demux(&mut Cursor::new(Bytes::from(data))).unwrap_err();

    assert_eq!(err.kind(), ErrorKind::InvalidData);
    assert_eq!(err.message(), "marker is not set");
}

#[test]
fn test_version_is_not_1() {
    let data = vec![0b10000000];

    let err = AV1CodecConfigurationRecord::demux(&mut Cursor::new(Bytes::from(data))).unwrap_err();

    assert_eq!(err.kind(), ErrorKind::InvalidData);
    assert_eq!(err.message(), "version is not 1");
}

#[test]
fn test_config_demux_with_initial_presentation_delay() {
    let data = b"\x81\r\x0c\x3f\n\x0f\0\0\0j\xef\xbf\xe1\xbc\x02\x19\x90\x10\x10\x10@".to_vec();

    let config = AV1CodecConfigurationRecord::demux(&mut Cursor::new(Bytes::from(data))).unwrap();

    assert_eq!(config.seq_profile, 0);
    assert_eq!(config.seq_level_idx_0, 13);
    assert!(!config.seq_tier_0);
    assert!(!config.high_bitdepth);
    assert!(!config.twelve_bit);
    assert!(!config.monochrome);
    assert!(config.chroma_subsampling_x);
    assert!(config.chroma_subsampling_y);
    assert_eq!(config.chroma_sample_position, 0);
    assert_eq!(config.initial_presentation_delay_minus_one, Some(15));
    assert_eq!(
        config.config_obu,
        Bytes::from_static(b"\n\x0f\0\0\0j\xef\xbf\xe1\xbc\x02\x19\x90\x10\x10\x10@")
    );
}

fn plain_config(delay: Option<u8>) -> AV1CodecConfigurationRecord {
    AV1CodecConfigurationRecord {
        seq_profile: 0,
        seq_level_idx_0: 0,
        seq_tier_0: false,
        high_bitdepth: false,
        twelve_bit: false,
        monochrome: false,
        chroma_subsampling_x: false,
        chroma_subsampling_y: false,
        chroma_sample_position: 0,
        initial_presentation_delay_minus_one: delay,
        config_obu: Bytes::from_static(b"HELLO FROM THE OBU"),
    }
}

#[test]
fn test_config_mux() {
    let config = plain_config(None);

    let mut buf = Vec::new();
    config.mux(&mut buf).unwrap();

    assert_eq!(buf, b"\x81\0\0\0HELLO FROM THE OBU".to_vec());
}

#[test]
fn test_config_mux_with_delay() {
    let config = plain_config(Some(0));

    let mut buf = Vec::new();
    config.mux(&mut buf).unwrap();

    assert_eq!(buf, b"\x81\0\0\x10HELLO FROM THE OBU".to_vec());
}

#[test]
fn test_config_size() {
    let config = plain_config(None);
    assert_eq!(config.size(), 4 + 18);
    assert_eq!(config.checked_size(), Some(4 + 18));
    let mut buf = Vec::new();
    config.mux(&mut buf).unwrap();
    assert_eq!(buf.len() as u64, config.size());
}

#[test]
fn test_config_mux_appends() {
    let config = plain_config(Some(3));
    let mut buf = vec![0xaa, 0xbb];
    config.mux(&mut buf).unwrap();
    assert_eq!(&buf[..6], &[0xaa, 0xbb, 0x81, 0, 0, 0x13]);
}

#[test]
fn test_config_mux_demux_roundtrip() {
    let config = AV1CodecConfigurationRecord {
        seq_profile: 5,
        seq_level_idx_0: 31,
        seq_tier_0: true,
        high_bitdepth: false,
        twelve_bit: true,
        monochrome: false,
        chroma_subsampling_x: true,
        chroma_subsampling_y: false,
        chroma_sample_position: 3,
        initial_presentation_delay_minus_one: Some(9),
        config_obu: Bytes::from_static(&[1, 2, 3]),
    };
    let mut buf = Vec::new();
    config.mux(&mut buf).unwrap();
    let back = demux(&buf).unwrap();
    assert_eq!(back, config);

    let none = plain_config(None);
    let mut buf = Vec::new();
    none.mux(&mut buf).unwrap();
    assert_eq!(demux(&buf).unwrap(), none);
}

#[test]
fn test_config_demux_errors() {
    assert_eq!(demux(&[]).unwrap_err(), IoError::UnexpectedEof);
    assert_eq!(demux(&[0x81, 0x0d]).unwrap_err(), IoError::UnexpectedEof);
    assert_eq!(demux(&[0x82]).unwrap_err(), IoError::VersionNotOne);
    assert_eq!(demux(&[0x81, 0, 0, 0]).unwrap().config_obu, Bytes::new());
    assert_eq!(IoError::UnexpectedEof.kind(), ErrorKind::UnexpectedEof);
}

#[test]
fn test_config_demux_cursor_position() {
    let mut cursor = Cursor::new(Bytes::from_static(&[9, 0x81, 0x20, 0x0c, 0x00, 7, 8]));
    cursor.set_position(1);
    let config = AV1CodecConfigurationRecord::demux(&mut cursor).unwrap();
    assert_eq!(config.seq_profile, 1);
    assert_eq!(config.seq_level_idx_0, 0);
    assert_eq!(config.config_obu, Bytes::from_static(&[7, 8]));
    assert_eq!(cursor.position(), 7);
}

#[test]
fn test_config_clone() {
    let config = plain_config(Some(2));
    let copy = config.clone();
    assert_eq!(copy, config);
}
