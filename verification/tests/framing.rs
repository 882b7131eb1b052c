use remote_python::error::SyncError;
use remote_python::framing::{announced_length, decode_frame, encode_frame, PREFIX_LEN};

#[test]
fn the_prefix_has_eight_bytes() {
    assert_eq!(PREFIX_LEN, 8);
    assert_eq!(encode_frame(b""), vec![0u8; 8]);
}

#[test]
fn a_frame_is_the_little_endian_length_and_the_payload() {
    assert_eq!(encode_frame(b"{}"), vec![2, 0, 0, 0, 0, 0, 0, 0, b'{', b'}']);
    let payload = vec![7u8; 258];
    let frame = encode_frame(&payload);
    assert_eq!(&frame[..8], &[2, 1, 0, 0, 0, 0, 0, 0]);
    assert_eq!(&frame[8..], &payload[..]);
}

#[test]
fn a_long_payload_fills_the_third_byte_of_the_prefix() {
    let payload = vec![0u8; 0x01_02_03];
    let frame = encode_frame(&payload);
    assert_eq!(frame.len(), 8 + 0x01_02_03);
    assert_eq!(&frame[..8], &[3, 2, 1, 0, 0, 0, 0, 0]);
}

#[test]
fn the_prefix_is_read_lowest_byte_first() {
    assert_eq!(announced_length(&[0x40, 0x42, 0x0f, 0, 0, 0, 0, 0]), Ok(1_000_000));
    assert_eq!(announced_length(&[1, 2, 3, 4, 5, 6, 7, 8]), Ok(0x0807_0605_0403_0201));
    assert_eq!(announced_length(&[0xff; 8]), Ok(u64::MAX));
    assert_eq!(announced_length(&[0; 8]), Ok(0));
}

#[test]
fn only_the_first_eight_bytes_are_the_prefix() {
    assert_eq!(announced_length(&[5, 0, 0, 0, 0, 0, 0, 0, 9, 9, 9]), Ok(5));
}

#[test]
fn a_prefix_that_is_cut_short_is_a_network_error() {
    assert_eq!(announced_length(&[]), Err(SyncError::Network));
    assert_eq!(announced_length(&[1, 0, 0, 0, 0, 0, 0]), Err(SyncError::Network));
}

#[test]
fn a_frame_is_decoded_as_it_was_encoded() {
    for payload in [&b""[..], &b"{}"[..], &b"{\"entries\":[]}"[..], &[0u8, 255, 10, 13][..]] {
        let frame = encode_frame(payload);
        assert_eq!(decode_frame(&frame), Ok((payload.to_vec(), frame.len())));
    }
}

#[test]
fn what_follows_a_frame_is_left_alone() {
    let mut wire = encode_frame(b"first");
    let first_len = wire.len();
    wire.extend_from_slice(&encode_frame(b"second"));
    wire.extend_from_slice(b"raw block");
    let (first, used) = decode_frame(&wire).unwrap();
    assert_eq!(first, b"first");
    assert_eq!(used, first_len);
    let (second, used_again) = decode_frame(&wire[used..]).unwrap();
    assert_eq!(second, b"second");
    assert_eq!(&wire[used + used_again..], b"raw block");
}

#[test]
fn a_prefix_that_promises_too_much_is_a_network_error() {
    assert_eq!(decode_frame(&[3, 0, 0, 0, 0, 0, 0, 0, b'a', b'b']), Err(SyncError::Network));
    assert_eq!(decode_frame(&[1, 0, 0, 0, 0, 0, 0, 0]), Err(SyncError::Network));
    assert_eq!(decode_frame(&[0xff; 8]), Err(SyncError::Network));
    assert_eq!(decode_frame(&[0, 0, 0, 0, 0, 0, 0, 0x80, 1, 2, 3]), Err(SyncError::Network));
}

#[test]
fn every_cut_of_a_frame_is_a_network_error() {
    let frame = encode_frame(b"{\"num_files\":2}");
    for kept in 0..frame.len() {
        assert_eq!(decode_frame(&frame[..kept]), Err(SyncError::Network));
    }
    assert!(decode_frame(&frame).is_ok());
}

#[test]
fn an_input_without_a_whole_prefix_is_a_network_error() {
    assert_eq!(decode_frame(&[]), Err(SyncError::Network));
    assert_eq!(decode_frame(&[0, 0, 0, 0, 0, 0, 0]), Err(SyncError::Network));
}

#[test]
fn an_empty_payload_is_a_whole_frame() {
    assert_eq!(decode_frame(&[0; 8]), Ok((vec![], 8)));
    assert_eq!(decode_frame(&[0, 0, 0, 0, 0, 0, 0, 0, 42]), Ok((vec![], 8)));
}
