use dbd::codec::decode;
use dbd::codec::decode_body;
use dbd::codec::decode_frame;
use dbd::codec::encode;
use dbd::codec::encode_frame;
use dbd::codec::varint_len;
use dbd::codec::DecodeError;
use dbd::codec::Decoded;
use dbd::codec::Decoder;
use dbd::frame::is_complete;
use dbd::wire::get_be32;
use dbd::wire::get_le;
use dbd::wire::get_varint;
use dbd::wire::put_be32;
use dbd::wire::put_le;
use dbd::wire::put_varint;
use dbd::wire::zigzag_decode;
use dbd::wire::zigzag_encode;
use dbd::Frame;

#[test]
fn status_without_code_has_two_byte_body() {
    assert_eq!(encode_frame(&Frame::Status(None)).unwrap(), vec![0, 0, 0, 2, 2, 0]);
}

#[test]
fn status_codes_are_zigzag_encoded() {
    assert_eq!(encode_frame(&Frame::Status(Some(0))).unwrap(), vec![0, 0, 0, 3, 2, 1, 0]);
    assert_eq!(encode_frame(&Frame::Status(Some(1))).unwrap(), vec![0, 0, 0, 3, 2, 1, 2]);
    assert_eq!(encode_frame(&Frame::Status(Some(-1))).unwrap(), vec![0, 0, 0, 3, 2, 1, 1]);
    assert_eq!(
        encode_frame(&Frame::Status(Some(200))).unwrap(),
        vec![0, 0, 0, 5, 2, 1, 251, 144, 1]
    );
    assert_eq!(
        encode_frame(&Frame::Status(Some(i32::MIN))).unwrap(),
        vec![0, 0, 0, 7, 2, 1, 252, 255, 255, 255, 255]
    );
    assert_eq!(
        encode_frame(&Frame::Status(Some(i32::MAX))).unwrap(),
        vec![0, 0, 0, 7, 2, 1, 252, 254, 255, 255, 255]
    );
}

#[test]
fn chunks_carry_kind_length_and_bytes() {
    assert_eq!(
        encode_frame(&Frame::Stdout(b"SQL".to_vec())).unwrap(),
        vec![0, 0, 0, 5, 0, 3, b'S', b'Q', b'L']
    );
    assert_eq!(encode_frame(&Frame::Stderr(Vec::new())).unwrap(), vec![0, 0, 0, 2, 1, 0]);
}

#[test]
fn long_chunk_uses_a_wider_length() {
    let payload = vec![7u8; 300];
    let bytes = encode_frame(&Frame::Stdout(payload.clone())).unwrap();
    assert_eq!(&bytes[..8], &[0, 0, 1, 48, 0, 251, 44, 1]);
    assert_eq!(&bytes[8..], &payload[..]);
    let payload = vec![9u8; 70_000];
    let bytes = encode_frame(&Frame::Stderr(payload.clone())).unwrap();
    assert_eq!(&bytes[..10], &[0, 1, 17, 118, 1, 252, 112, 17, 1, 0]);
    assert_eq!(&bytes[10..], &payload[..]);
}

#[test]
fn round_trip_of_a_sequence() {
    let frames = vec![
        Frame::Stdout(b"CREATE TABLE t (id int);\n".to_vec()),
        Frame::Stderr(b"-- dumping t\n".to_vec()),
        Frame::Stdout(vec![0u8; 251]),
        Frame::Stderr(Vec::new()),
        Frame::Stdout((0..=255u8).collect()),
        Frame::Status(Some(-7)),
    ];
    let bytes = encode(&frames).unwrap();
    assert_eq!(decode(&bytes).unwrap(), frames);
    assert!(is_complete(&frames));
}

#[test]
fn round_trip_of_each_status() {
    for code in [None, Some(0), Some(1), Some(-1), Some(125), Some(126), Some(255), Some(65536), Some(i32::MIN), Some(i32::MAX)] {
        let frames = vec![Frame::Status(code)];
        assert_eq!(decode(&encode(&frames).unwrap()).unwrap(), frames);
    }
}

#[test]
fn empty_stream_holds_no_frame() {
    assert_eq!(encode(&Vec::new()).unwrap(), Vec::<u8>::new());
    assert_eq!(decode(&[]).unwrap(), Vec::<Frame>::new());
    assert!(!is_complete(&Vec::new()));
}

#[test]
fn stream_cut_inside_a_frame_is_truncated() {
    let bytes = encode(&vec![Frame::Stdout(b"abc".to_vec()), Frame::Status(Some(0))]).unwrap();
    for cut in 1..bytes.len() {
        if cut == 9 {
            assert_eq!(decode(&bytes[..cut]).unwrap(), vec![Frame::Stdout(b"abc".to_vec())]);
        } else {
            assert_eq!(decode(&bytes[..cut]), Err(DecodeError::Truncated));
        }
    }
}

#[test]
fn unknown_kind_is_malformed() {
    assert_eq!(decode(&[0, 0, 0, 2, 3, 0]), Err(DecodeError::Malformed));
    assert_eq!(decode(&[0, 0, 0, 2, 254, 0]), Err(DecodeError::Malformed));
    assert_eq!(decode(&[0, 0, 0, 0]), Err(DecodeError::Malformed));
}

#[test]
fn bad_status_flag_is_malformed() {
    assert_eq!(decode(&[0, 0, 0, 2, 2, 2]), Err(DecodeError::Malformed));
    assert_eq!(decode(&[0, 0, 0, 1, 2]), Err(DecodeError::Malformed));
    assert_eq!(decode(&[0, 0, 0, 2, 2, 1]), Err(DecodeError::Malformed));
}

#[test]
fn chunk_longer_than_its_body_is_malformed() {
    assert_eq!(decode(&[0, 0, 0, 3, 0, 5, b'a']), Err(DecodeError::Malformed));
}

#[test]
fn status_code_beyond_32_bits_is_malformed() {
    let body = [2u8, 1, 253, 0, 0, 0, 0, 1, 0, 0, 0];
    assert!(decode_body(&body).is_none());
}

#[test]
fn wider_literal_than_needed_is_read() {
    assert_eq!(decode_body(&[251, 0, 0, 251, 1, 0, b'x']), Some(Frame::Stdout(b"x".to_vec())));
    assert_eq!(decode_body(&[2, 1, 252, 4, 0, 0, 0]), Some(Frame::Status(Some(2))));
}

#[test]
fn bytes_behind_the_frame_within_a_body_are_ignored() {
    assert_eq!(decode(&[0, 0, 0, 4, 1, 1, b'e', 99]).unwrap(), vec![Frame::Stderr(b"e".to_vec())]);
}

#[test]
fn decode_frame_reports_what_it_took() {
    let mut bytes = encode_frame(&Frame::Stdout(b"data".to_vec())).unwrap();
    let len = bytes.len();
    bytes.extend_from_slice(&[0, 0]);
    match decode_frame(&bytes) {
        Decoded::Frame(frame, used) => {
            assert_eq!(frame, Frame::Stdout(b"data".to_vec()));
            assert_eq!(used, len);
        }
        other => panic!("{:?}", other),
    }
    assert!(matches!(decode_frame(&bytes[..3]), Decoded::Incomplete));
    assert!(matches!(decode_frame(&bytes[..len - 1]), Decoded::Incomplete));
    assert!(matches!(decode_frame(&[0, 0, 0, 1, 9]), Decoded::Malformed));
}

#[test]
fn decoder_takes_the_stream_byte_by_byte() {
    let frames = vec![
        Frame::Stderr(b"reading\n".to_vec()),
        Frame::Stdout(vec![1u8; 400]),
        Frame::Status(Some(3)),
    ];
    let bytes = encode(&frames).unwrap();
    let mut decoder = Decoder::new();
    let mut seen = Vec::new();
    for b in bytes {
        decoder.feed(&[b]);
        while let Some(frame) = decoder.next_frame().unwrap() {
            seen.push(frame);
        }
    }
    assert_eq!(seen, frames);
    assert_eq!(decoder.finish(), Ok(()));
}

#[test]
fn decoder_reports_a_stream_that_stops_inside_a_frame() {
    let bytes = encode_frame(&Frame::Stdout(b"abcdef".to_vec())).unwrap();
    let mut decoder = Decoder::new();
    decoder.feed(&bytes[..7]);
    assert_eq!(decoder.next_frame(), Ok(None));
    assert_eq!(decoder.finish(), Err(DecodeError::Truncated));
    decoder.feed(&bytes[7..]);
    assert_eq!(decoder.next_frame(), Ok(Some(Frame::Stdout(b"abcdef".to_vec()))));
    assert_eq!(decoder.next_frame(), Ok(None));
    assert_eq!(decoder.finish(), Ok(()));
}

#[test]
fn decoder_keeps_a_malformed_frame() {
    let mut decoder = Decoder::new();
    decoder.feed(&[0, 0, 0, 1, 7]);
    assert_eq!(decoder.next_frame(), Err(DecodeError::Malformed));
    assert_eq!(decoder.next_frame(), Err(DecodeError::Malformed));
}

#[test]
fn variable_width_integers() {
    let cases: Vec<(u64, Vec<u8>)> = vec![
        (0, vec![0]),
        (250, vec![250]),
        (251, vec![251, 251, 0]),
        (65535, vec![251, 255, 255]),
        (65536, vec![252, 0, 0, 1, 0]),
        (0xffff_ffff, vec![252, 255, 255, 255, 255]),
        (0x1_0000_0000, vec![253, 0, 0, 0, 0, 1, 0, 0, 0]),
        (u64::MAX, vec![253, 255, 255, 255, 255, 255, 255, 255, 255]),
    ];
    for (n, bytes) in cases {
        let mut out = vec![42u8];
        put_varint(&mut out, n);
        assert_eq!(&out[1..], &bytes[..]);
        assert_eq!(varint_len(n), bytes.len());
        assert_eq!(get_varint(&out, 1), Some((n, out.len())));
    }
    assert_eq!(get_varint(&[251, 1], 0), None);
    assert_eq!(get_varint(&[254, 0, 0], 0), None);
    assert_eq!(get_varint(&[255], 0), None);
    assert_eq!(get_varint(&[1], 1), None);
}

#[test]
fn little_endian_literals() {
    let mut out = Vec::new();
    put_le(&mut out, 0x0102_0304, 4);
    assert_eq!(out, vec![4, 3, 2, 1]);
    assert_eq!(get_le(&out, 0, 4), 0x0102_0304);
    assert_eq!(get_le(&out, 1, 2), 0x0203);
    assert_eq!(get_le(&out, 2, 0), 0);
    let mut out = Vec::new();
    put_le(&mut out, 0x1234, 1);
    assert_eq!(out, vec![0x34]);
}

#[test]
fn big_endian_length_prefix() {
    let mut out = Vec::new();
    put_be32(&mut out, 0x0102_0304);
    assert_eq!(out, vec![1, 2, 3, 4]);
    assert_eq!(get_be32(&out), 0x0102_0304);
    assert_eq!(get_be32(&[255, 255, 255, 255, 0]), u32::MAX);
}

#[test]
fn zigzag_forms() {
    assert_eq!(zigzag_encode(0), 0);
    assert_eq!(zigzag_encode(-1), 1);
    assert_eq!(zigzag_encode(1), 2);
    assert_eq!(zigzag_encode(-2), 3);
    assert_eq!(zigzag_encode(i32::MAX), u32::MAX - 1);
    assert_eq!(zigzag_encode(i32::MIN), u32::MAX);
    for c in [0, 1, -1, 77, -77, i32::MAX, i32::MIN] {
        assert_eq!(zigzag_decode(zigzag_encode(c)), c);
    }
}
