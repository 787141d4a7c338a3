use minicluster::codec::{decode_frame, encode_frame, encode_request, frame_length, HostCommand};

fn round_trip(len: usize) {
    let data: Vec<u8> = (0..len).map(|i| (i % 251) as u8).collect();
    let encoded = encode_frame(&data);
    assert_eq!(encoded.len(), data.len() + 8);
    assert_eq!(decode_frame(&encoded), Some(data));
}

#[test]
fn frame_round_trip_empty() {
    round_trip(0);
}

#[test]
fn frame_round_trip_single_byte() {
    round_trip(1);
}

#[test]
fn frame_round_trip_64k() {
    round_trip(65536);
}

#[test]
fn frame_round_trip_over_64k() {
    round_trip(65536 + 12345);
}

#[test]
fn frame_layout_is_little_endian_length_then_bytes() {
    let encoded = encode_frame(&vec![0xAB]);
    assert_eq!(encoded, vec![1, 0, 0, 0, 0, 0, 0, 0, 0xAB]);
    let encoded = encode_frame(&vec![0xCD; 258]);
    assert_eq!(&encoded[..8], &[2, 1, 0, 0, 0, 0, 0, 0]);
    assert_eq!(&encoded[8..], &[0xCD; 258][..]);
}

#[test]
fn decode_rejects_short_buffer() {
    assert_eq!(decode_frame(&vec![]), None);
    assert_eq!(decode_frame(&vec![1, 2, 3]), None);
    assert_eq!(decode_frame(&vec![0; 7]), None);
}

#[test]
fn decode_rejects_mismatched_length() {
    // announces 0 bytes but carries 1
    let mut buf = vec![0u8; 8];
    buf.push(9);
    assert_eq!(decode_frame(&buf), None);
    // announces 2 bytes but carries 1
    let mut buf = vec![2, 0, 0, 0, 0, 0, 0, 0];
    buf.push(9);
    assert_eq!(decode_frame(&buf), None);
}

#[test]
fn decode_accepts_empty_frame() {
    assert_eq!(decode_frame(&vec![0u8; 8]), Some(vec![]));
}

#[test]
fn frame_length_reads_little_endian() {
    assert_eq!(frame_length(&vec![2, 0, 0, 0, 0, 0, 0, 0]), 2);
    assert_eq!(frame_length(&vec![0x01, 0x02, 0, 0, 0, 0, 0, 0]), 513);
}

#[test]
fn request_is_program_frame_then_payload_frame() {
    let request = encode_request(&vec![0x11], &vec![0x22, 0x33]);
    let mut expected = vec![1, 0, 0, 0, 0, 0, 0, 0, 0x11];
    expected.extend_from_slice(&[2, 0, 0, 0, 0, 0, 0, 0, 0x22, 0x33]);
    assert_eq!(request, expected);
}

#[test]
fn command_bytes_decode_to_commands() {
    assert_eq!(HostCommand::try_from(0), Ok(HostCommand::Wait));
    assert_eq!(HostCommand::try_from(1), Ok(HostCommand::Execute));
    assert_eq!(HostCommand::try_from(2), Ok(HostCommand::Terminate));
}

#[test]
fn out_of_range_command_byte_is_an_error() {
    assert_eq!(HostCommand::try_from(3), Err(()));
    assert_eq!(HostCommand::try_from(255), Err(()));
}

#[test]
fn command_encoding_round_trips() {
    for cmd in [HostCommand::Wait, HostCommand::Execute, HostCommand::Terminate] {
        assert_eq!(HostCommand::try_from(cmd.as_byte()), Ok(cmd));
    }
}
