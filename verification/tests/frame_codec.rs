use hive_node::frame::{decode, encode, read_length, FrameError};

#[test]
fn encode_prefixes_big_endian_length() {
    let frame = encode(&vec![b'h', b'i', b'!']).unwrap();
    assert_eq!(frame, vec![0, 0, 0, 3, b'h', b'i', b'!']);
}

#[test]
fn encode_of_empty_payload_is_prefix_alone() {
    assert_eq!(encode(&Vec::new()).unwrap(), vec![0, 0, 0, 0]);
}

#[test]
fn decode_gives_payload_and_size() {
    let bytes = vec![0, 0, 0, 2, 7, 9, 42];
    let (payload, used) = decode(&bytes).unwrap();
    assert_eq!(payload, vec![7, 9]);
    assert_eq!(used, 6);
}

#[test]
fn decode_round_trips_encode() {
    let payload: Vec<u8> = (0..300).map(|i| (i % 251) as u8).collect();
    let frame = encode(&payload).unwrap();
    assert_eq!(frame[..4], [0, 0, 1, 44]);
    let (back, used) = decode(&frame).unwrap();
    assert_eq!(back, payload);
    assert_eq!(used, frame.len());
}

#[test]
fn short_prefix_is_malformed() {
    assert_eq!(decode(&vec![0, 0, 1]), Err(FrameError::MalformedFrame));
    assert_eq!(read_length(&vec![]), Err(FrameError::MalformedFrame));
}

#[test]
fn short_payload_is_malformed() {
    assert_eq!(decode(&vec![0, 0, 0, 5, 1, 2]), Err(FrameError::MalformedFrame));
}

#[test]
fn read_length_is_big_endian() {
    assert_eq!(read_length(&vec![0x01, 0x02, 0x03, 0x04]), Ok(0x01020304));
    assert_eq!(read_length(&vec![0xFF, 0xFF, 0xFF, 0xFF, 9]), Ok(u32::MAX));
}
