use async_bincode::AsyncBincodeReader;
use async_bincode::AsyncBincodeWriter;
use bincode::Options;
use dbd::codec::decode;
use dbd::codec::encode;
use dbd::codec::encode_frame;
use dbd::Frame;
use futures::executor::block_on;
use futures::SinkExt;
use futures::StreamExt;

fn body_of(frame: &Frame) -> Vec<u8> {
    encode_frame(frame).unwrap()[4..].to_vec()
}

#[test]
fn chunk_body_is_the_bincode_form() {
    for len in [0usize, 1, 250, 251, 65535, 65536, 70_000] {
        let payload: Vec<u8> = (0..len).map(|i| (i % 251) as u8).collect();
        let expected = bincode::options().serialize(&(0u32, payload.clone())).unwrap();
        assert_eq!(body_of(&Frame::Stdout(payload.clone())), expected);
        let expected = bincode::options().serialize(&(1u32, payload.clone())).unwrap();
        assert_eq!(body_of(&Frame::Stderr(payload)), expected);
    }
}

#[test]
fn status_body_is_the_bincode_form() {
    for code in [None, Some(0), Some(1), Some(-1), Some(125), Some(-126), Some(40_000), Some(i32::MIN), Some(i32::MAX)] {
        let expected = bincode::options().serialize(&(2u32, code)).unwrap();
        assert_eq!(body_of(&Frame::Status(code)), expected);
    }
}

#[test]
fn framed_writer_produces_the_same_bytes() {
    let payload = b"INSERT INTO t VALUES (1);".to_vec();
    let mut sink = AsyncBincodeWriter::from(Vec::<u8>::new()).for_async();
    block_on(sink.send((0u32, payload.clone()))).unwrap();
    block_on(sink.send((1u32, payload.clone()))).unwrap();
    let written = sink.into_inner();
    let frames = vec![Frame::Stdout(payload.clone()), Frame::Stderr(payload)];
    assert_eq!(encode(&frames).unwrap(), written);
    assert_eq!(decode(&written).unwrap(), frames);
}

#[test]
fn framed_writer_status_is_read_back() {
    let mut sink = AsyncBincodeWriter::from(Vec::<u8>::new()).for_async();
    block_on(sink.send((2u32, Some(-3i32)))).unwrap();
    block_on(sink.send((2u32, None::<i32>))).unwrap();
    let written = sink.into_inner();
    assert_eq!(decode(&written).unwrap(), vec![Frame::Status(Some(-3)), Frame::Status(None)]);
}

#[test]
fn framed_reader_reads_what_the_library_writes() {
    let payload = vec![5u8; 1000];
    let bytes = encode(&vec![Frame::Stdout(payload.clone()), Frame::Stdout(Vec::new())]).unwrap();
    let mut reader: AsyncBincodeReader<&[u8], (u32, Vec<u8>)> = AsyncBincodeReader::from(&bytes[..]);
    assert_eq!(block_on(reader.next()).unwrap().unwrap(), (0u32, payload));
    assert_eq!(block_on(reader.next()).unwrap().unwrap(), (0u32, Vec::new()));
    assert!(block_on(reader.next()).is_none());
    let bytes = encode_frame(&Frame::Status(Some(1))).unwrap();
    let mut reader: AsyncBincodeReader<&[u8], (u32, Option<i32>)> = AsyncBincodeReader::from(&bytes[..]);
    assert_eq!(block_on(reader.next()).unwrap().unwrap(), (2u32, Some(1)));
}
