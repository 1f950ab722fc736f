use x2ssh::framing::{length_prefix, read_framed, write_framed, ByteReader, FramingError};

#[test]
fn test_round_trip() {
    let packet = b"Hello, World!";
    let mut buf = Vec::new();

    write_framed(&mut buf, packet).unwrap();

    let received = read_framed(&mut ByteReader::new(buf.as_slice())).unwrap();
    assert_eq!(received, packet);
}

#[test]
fn test_empty_packet() {
    let packet: &[u8] = b"";
    let mut buf = Vec::new();

    write_framed(&mut buf, packet).unwrap();

    let received = read_framed(&mut ByteReader::new(buf.as_slice())).unwrap();
    assert!(received.is_empty());
}

#[test]
fn test_large_packet() {
    let packet = vec![0u8; 65536];
    let mut buf = Vec::new();

    write_framed(&mut buf, &packet).unwrap();

    let received = read_framed(&mut ByteReader::new(buf.as_slice())).unwrap();
    assert_eq!(received.len(), 65536);
    assert_eq!(received, packet);
}

#[test]
fn test_multiple_packets() {
    let packets = vec![b"first".to_vec(), b"second".to_vec(), b"third".to_vec()];
    let mut buf = Vec::new();

    for packet in &packets {
        write_framed(&mut buf, packet).unwrap();
    }

    let mut cursor = ByteReader::new(buf.as_slice());
    for expected in &packets {
        let received = read_framed(&mut cursor).unwrap();
        assert_eq!(&received, expected);
    }
    assert_eq!(cursor.remaining_len(), 0);
}

#[test]
fn frame_bytes_are_big_endian_length_then_payload() {
    let mut buf = vec![0xEE];
    write_framed(&mut buf, b"abc").unwrap();
    assert_eq!(buf, vec![0xEE, 0, 0, 0, 3, b'a', b'b', b'c']);

    let mut long = Vec::new();
    write_framed(&mut long, &vec![7u8; 0x0102]).unwrap();
    assert_eq!(&long[..4], &[0, 0, 1, 2]);
    assert_eq!(long.len(), 4 + 0x0102);
}

#[test]
fn length_prefix_of_known_values() {
    assert_eq!(length_prefix(0), [0, 0, 0, 0]);
    assert_eq!(length_prefix(1), [0, 0, 0, 1]);
    assert_eq!(length_prefix(0x01020304), [1, 2, 3, 4]);
    assert_eq!(length_prefix(u32::MAX), [255, 255, 255, 255]);
    assert_eq!(length_prefix(65536), 65536u32.to_be_bytes());
}

#[test]
fn short_header_fails_and_leaves_the_reader() {
    let data = [0u8, 0, 0];
    let mut reader = ByteReader::new(&data);
    assert_eq!(read_framed(&mut reader), Err(FramingError::UnexpectedEof));
    assert_eq!(reader.remaining_len(), 3);
}

#[test]
fn short_payload_fails_and_leaves_the_reader() {
    let data = [0u8, 0, 0, 5, 1, 2, 3, 4];
    let mut reader = ByteReader::new(&data);
    assert_eq!(read_framed(&mut reader), Err(FramingError::UnexpectedEof));
    assert_eq!(reader.remaining_len(), 8);
}

#[test]
fn empty_input_fails() {
    let mut reader = ByteReader::new(&[]);
    assert_eq!(read_framed(&mut reader), Err(FramingError::UnexpectedEof));
}

#[test]
fn read_leaves_what_follows_the_frame() {
    let data = [0u8, 0, 0, 2, 9, 8, 7, 6];
    let mut reader = ByteReader::new(&data);
    assert_eq!(read_framed(&mut reader), Ok(vec![9, 8]));
    assert_eq!(reader.remaining_len(), 2);
    assert_eq!(read_framed(&mut reader), Err(FramingError::UnexpectedEof));
    assert_eq!(reader.remaining_len(), 2);
}

#[test]
fn round_trip_of_every_small_length() {
    for len in 0..300usize {
        let packet: Vec<u8> = (0..len).map(|i| (i * 31 % 251) as u8).collect();
        let mut buf = Vec::new();
        write_framed(&mut buf, &packet).unwrap();
        assert_eq!(buf.len(), len + 4);
        let mut reader = ByteReader::new(&buf);
        assert_eq!(read_framed(&mut reader).unwrap(), packet);
        assert_eq!(reader.remaining_len(), 0);
    }
}

#[test]
fn framing_error_messages() {
    assert_eq!(
        FramingError::UnexpectedEof.message(),
        "unexpected end of stream inside a frame"
    );
    assert_eq!(
        FramingError::PayloadTooLarge.message(),
        "payload too large for a frame"
    );
}
