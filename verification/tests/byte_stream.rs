use bytes::Bytes;
use youtube_audio_feed::util::byte_stream::{Emission, Polled};
use youtube_audio_feed::util::ByteStream;

fn assert_bytes(stream: &[&[u8]], expect: &[&[u8]], skip: usize, limit: Option<usize>) {
    let stream: Vec<Bytes> = stream
        .iter()
        .map(|bytes| Bytes::copy_from_slice(bytes))
        .collect();

    let stream = ByteStream::new(stream).skip_bytes(skip);
    let stream = match limit {
        Some(limit) => stream.limit_bytes(limit),
        None => stream,
    };

    let bytes = stream.collect();

    let expect = expect
        .iter()
        .map(|bytes| Bytes::copy_from_slice(bytes))
        .collect::<Vec<_>>();

    assert_eq!(bytes, expect);
}

#[test]
fn test_byte_stream() {
    assert_bytes(&[b"hello", b"world"], &[b"hello", b"world"], 0, None);
    assert_bytes(&[b"hello", b"world"], &[b"llo", b"world"], 2, None);
    assert_bytes(&[b"hello", b"world"], &[b"hello", b"w"], 0, Some(6));
    assert_bytes(&[b"hello", b"world"], &[b"llo", b"wor"], 2, Some(6));

    assert_bytes(&[b"hello", b"world"], &[b"world"], 5, None);
    assert_bytes(&[b"hello", b"world"], &[b"orld"], 6, None);
    assert_bytes(&[b"hello", b"world"], &[b"hel"], 0, Some(3));
    assert_bytes(&[b"hello", b"world"], &[b"hello"], 0, Some(5));
    assert_bytes(&[b"hello", b"world"], &[], 0, Some(0));

    assert_bytes(&[b"hello", b"world"], &[], 100, None);
    assert_bytes(&[b"hello", b"world"], &[b"hello", b"world"], 0, Some(100));
    assert_bytes(&[b"hello", b"world"], &[], 100, Some(100));

    assert_bytes(&[], &[], 0, None);
    assert_bytes(&[], &[], 100, None);
    assert_bytes(&[], &[], 0, Some(100));
    assert_bytes(&[], &[], 100, Some(100));
}

#[test]
fn skip_spans_several_chunks() {
    assert_bytes(&[b"ab", b"cd", b"efgh"], &[b"fgh"], 5, None);
    assert_bytes(&[b"ab", b"cd", b"efgh"], &[b"fg"], 5, Some(2));
}

#[test]
fn empty_chunks_are_dropped() {
    assert_bytes(&[b"", b"ab", b"", b"c"], &[b"ab", b"c"], 0, None);
}

#[test]
fn advance_reports_skip_then_chunk_then_end() {
    let mut stream = ByteStream::new(()).skip_bytes(3).limit_bytes(2);
    assert!(matches!(
        stream.advance::<u8>(Polled::Chunk(Bytes::from_static(b"abc"))),
        Emission::Skipped
    ));
    assert_eq!(stream.remaining_skip(), 0);
    match stream.advance::<u8>(Polled::Chunk(Bytes::from_static(b"defg"))) {
        Emission::Chunk(bytes) => assert_eq!(&bytes[..], b"de"),
        _ => panic!("a chunk was expected"),
    }
    assert_eq!(stream.remaining_limit(), Some(0));
    assert!(matches!(
        stream.advance::<u8>(Polled::Chunk(Bytes::from_static(b"h"))),
        Emission::Finished
    ));
}

#[test]
fn advance_hands_waits_through() {
    let mut stream = ByteStream::new(()).skip_bytes(3).limit_bytes(2);
    assert!(matches!(stream.advance::<u8>(Polled::Pending), Emission::Pending));
    assert!(!stream.is_ended());
    assert_eq!(stream.remaining_skip(), 3);
    assert_eq!(stream.remaining_limit(), Some(2));
    match stream.advance::<u8>(Polled::Chunk(Bytes::from_static(b"abcd"))) {
        Emission::Chunk(bytes) => assert_eq!(&bytes[..], b"d"),
        _ => panic!("a chunk was expected"),
    }
}

#[test]
fn failure_is_handed_on_and_ends_the_output() {
    let mut stream = ByteStream::new(());
    match stream.advance::<u8>(Polled::Chunk(Bytes::from_static(b"abc"))) {
        Emission::Chunk(bytes) => assert_eq!(&bytes[..], b"abc"),
        _ => panic!("a chunk was expected"),
    }
    assert!(!stream.is_ended());
    assert!(matches!(stream.advance(Polled::Failed(7u8)), Emission::Failed(7)));
    assert!(stream.is_ended());
    assert!(matches!(
        stream.advance::<u8>(Polled::Chunk(Bytes::from_static(b"def"))),
        Emission::Finished
    ));
    assert!(matches!(stream.advance(Polled::Failed(8u8)), Emission::Finished));
    assert!(matches!(stream.advance::<u8>(Polled::Pending), Emission::Finished));
    assert!(matches!(stream.advance::<u8>(Polled::Finished), Emission::Finished));
    assert!(stream.is_ended());
}

#[test]
fn end_of_the_wrapped_stream_ends_the_output() {
    let mut stream = ByteStream::new(()).skip_bytes(1);
    assert!(matches!(stream.advance::<u8>(Polled::Finished), Emission::Finished));
    assert!(stream.is_ended());
    assert!(matches!(
        stream.advance::<u8>(Polled::Chunk(Bytes::from_static(b"abc"))),
        Emission::Finished
    ));
    assert_eq!(stream.remaining_skip(), 1);
}

#[test]
fn end_of_the_limit_ends_the_output() {
    let mut stream = ByteStream::new(()).limit_bytes(0);
    assert!(!stream.is_ended());
    // a chunk that the skip swallows does not end the output
    assert!(matches!(
        stream.advance::<u8>(Polled::Chunk(Bytes::new())),
        Emission::Skipped
    ));
    assert!(!stream.is_ended());
    assert!(matches!(
        stream.advance::<u8>(Polled::Chunk(Bytes::from_static(b"a"))),
        Emission::Finished
    ));
    assert!(stream.is_ended());
    assert!(matches!(stream.advance(Polled::Failed(1u8)), Emission::Finished));
}
