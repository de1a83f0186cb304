use source_query_cacher::frame::{Frame, FrameCodec};
use source_query_cacher::source_query::{CodecError, Header, RequestHeader, SourceQuery};

#[test]
fn frame_decode_whole_packet() {
    let mut buf = vec![0xFF, 0xFF, 0xFF, 0xFF, b'U', 0xFF, 0xFF, 0xFF, 0xFF];
    match FrameCodec::default().decode(&mut buf) {
        Ok(Some(Frame::SourceQuery(q))) => {
            assert_eq!(q.header, Header::Request(RequestHeader::Players));
            assert_eq!(q.data, vec![0xFF; 4]);
        }
        other => panic!("unexpected {:?}", other),
    }
}

#[test]
fn frame_decode_split_packet_is_nothing() {
    let mut buf = b"Some random data".to_vec();
    match FrameCodec::default().decode(&mut buf) {
        Ok(Some(Frame::Nothing)) => {}
        other => panic!("unexpected {:?}", other),
    }
}

#[test]
fn frame_decode_invalid_header_is_error() {
    let mut buf = vec![0xFF, 0xFF, 0xFF, 0xFF, b'x'];
    match FrameCodec::default().decode(&mut buf) {
        Err(CodecError::InvalidHeader(b)) => assert_eq!(b, b'x'),
        other => panic!("unexpected {:?}", other),
    }
}

#[test]
fn frame_encode() {
    let mut dst = Vec::new();
    let q = SourceQuery::with_request(RequestHeader::Info, vec![1]);
    assert!(FrameCodec::default().encode(Frame::SourceQuery(q), &mut dst).is_ok());
    assert_eq!(dst, vec![0xFF, 0xFF, 0xFF, 0xFF, b'T', 1]);
    let mut dst = Vec::new();
    assert_eq!(
        FrameCodec::default().encode(Frame::Nothing, &mut dst),
        Err(CodecError::NothingToSend)
    );
    assert!(dst.is_empty());
}

#[test]
fn frame_into_query() {
    let q = SourceQuery::with_request(RequestHeader::Info, vec![1]);
    assert_eq!(Frame::SourceQuery(q.clone()).into_query(), Some(q));
    assert_eq!(Frame::Nothing.into_query(), None);
}
