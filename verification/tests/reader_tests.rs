use steam_cdn::reader::{ByteReader, ReadError};

#[test]
fn read_u32_le_short_input_yields_short_read() {
    for len in 0..4usize {
        let data = vec![0xAAu8; len];
        let mut r = ByteReader::new(&data);
        assert_eq!(r.read_u32_le(), Err(ReadError::ShortRead));
    }
}

#[test]
fn read_u32_le_reads_little_endian() {
    let data = [0xD0u8, 0x17, 0xF6, 0x71];
    let mut r = ByteReader::new(&data);
    assert_eq!(r.read_u32_le(), Ok(0x71F617D0));
}

#[test]
fn read_length_prefixed_reads_body_and_advances() {
    let mut data = vec![3u8, 0, 0, 0];
    data.extend_from_slice(b"abcXYZ");
    let mut r = ByteReader::new(&data);
    let body = r.read_length_prefixed().unwrap();
    assert_eq!(body, b"abc");
    assert_eq!(r.read_u32_le(), Err(ReadError::ShortRead));
}

#[test]
fn read_length_prefixed_missing_body_yields_short_read() {
    let data = vec![5u8, 0, 0, 0, 1, 2];
    let mut r = ByteReader::new(&data);
    assert_eq!(r.read_length_prefixed(), Err(ReadError::ShortRead));
    let data2 = vec![1u8, 0, 0];
    let mut r2 = ByteReader::new(&data2);
    assert_eq!(r2.read_length_prefixed(), Err(ReadError::ShortRead));
}
