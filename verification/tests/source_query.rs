use source_query_cacher::source_query::{
    CodecError, Header, RequestHeader, ResponseHeader, SourceQuery, SourceQueryCodec,
};

#[test]
fn test_decoder() {
    let slice = [0xFF, 0xFF, 0xFF, 0xFF, ('D' as u8), 1, 2, 3];

    assert_eq!(
        SourceQueryCodec::default()
            .decode(&mut slice.to_vec())
            .unwrap()
            .unwrap(),
        SourceQuery::with(Header::Response(ResponseHeader::Players), slice[5..].to_vec())
    );

    assert_eq!(
        SourceQueryCodec::default()
            .decode(&mut "Some random data".as_bytes().to_vec())
            .unwrap(),
        None
    );

    let slice = [0xFF, 0xFF, 0xFF, 0xFF, ('Z' as u8), 1, 2, 3];
    assert!(SourceQueryCodec::default().decode(&mut slice.to_vec()).is_err());
}

#[test]
fn source_query_test_encoder() {
    let slice = [0xFF, 0xFF, 0xFF, 0xFF, ('D' as u8), 1, 2, 3];

    let mut dst = Vec::new();

    assert!(SourceQueryCodec::default()
        .encode(
            SourceQuery::with(Header::Response(ResponseHeader::Players), slice[5..].to_vec()),
            &mut dst
        )
        .is_ok());
    assert_eq!(&slice[..], &dst[..]);
}

#[test]
fn decode_keeps_header_bytes_in_buffer() {
    let mut buf = vec![0xFF, 0xFF, 0xFF, 0xFF, b'T', 9, 8];
    let q = SourceQueryCodec::new().decode(&mut buf).unwrap().unwrap();
    assert_eq!(q.header, Header::Request(RequestHeader::Info));
    assert_eq!(q.data, vec![9, 8]);
    assert_eq!(buf, vec![0xFF, 0xFF, 0xFF, 0xFF, b'T']);
}

#[test]
fn decode_short_or_split_packets_gives_nothing() {
    let mut short = vec![0xFF, 0xFF, 0xFF, 0xFF];
    assert_eq!(SourceQueryCodec::new().decode(&mut short), Ok(None));
    assert_eq!(short, vec![0xFF, 0xFF, 0xFF, 0xFF]);
    let mut split = vec![0xFE, 0xFF, 0xFF, 0xFF, b'D', 1];
    assert_eq!(SourceQueryCodec::new().decode(&mut split), Ok(None));
    assert_eq!(split.len(), 6);
}

#[test]
fn decode_invalid_header_error_names_the_byte() {
    let mut buf = vec![0xFF, 0xFF, 0xFF, 0xFF, b'Z', 1, 2, 3];
    assert_eq!(
        SourceQueryCodec::new().decode(&mut buf),
        Err(CodecError::InvalidHeader(b'Z'))
    );
    assert_eq!(buf.len(), 8);
}

#[test]
fn encode_appends_to_existing_bytes() {
    let mut dst = vec![7u8];
    SourceQueryCodec::new()
        .encode(SourceQuery::with_request(RequestHeader::Players, vec![1, 2]), &mut dst)
        .unwrap();
    assert_eq!(dst, vec![7, 0xFF, 0xFF, 0xFF, 0xFF, b'U', 1, 2]);
}

#[test]
fn encode_then_decode_roundtrip() {
    let headers = [
        Header::Response(ResponseHeader::LegacyInfo),
        Header::Response(ResponseHeader::NewInfo),
        Header::Response(ResponseHeader::Players),
        Header::Response(ResponseHeader::PlayersChallenge),
        Header::Request(RequestHeader::Info),
        Header::Request(RequestHeader::Players),
    ];
    for h in headers.iter() {
        let q = SourceQuery::with(*h, vec![5, 6, 7]);
        let mut buf = Vec::new();
        SourceQueryCodec::new().encode(q.clone(), &mut buf).unwrap();
        assert_eq!(SourceQueryCodec::new().decode(&mut buf).unwrap(), Some(q));
    }
}

#[test]
fn header_bytes() {
    assert_eq!(u8::from(Header::Response(ResponseHeader::LegacyInfo)), b'm');
    assert_eq!(u8::from(Header::Response(ResponseHeader::NewInfo)), b'I');
    assert_eq!(u8::from(Header::Response(ResponseHeader::Players)), b'D');
    assert_eq!(u8::from(Header::Response(ResponseHeader::PlayersChallenge)), b'A');
    assert_eq!(u8::from(Header::Request(RequestHeader::Info)), b'T');
    assert_eq!(u8::from(Header::Request(RequestHeader::Players)), b'U');
    for b in 0..=255u8 {
        if let Some(h) = Header::from_u8(b) {
            assert_eq!(u8::from(h), b);
        }
    }
    assert_eq!(Header::from_u8(b'Z'), None);
    assert_eq!(Header::from_u64(b'T' as u64), Some(Header::Request(RequestHeader::Info)));
    assert_eq!(Header::from_u64(0x100 + b'T' as u64), None);
    assert_eq!(Header::from_i64(b'A' as i64), Some(Header::Response(ResponseHeader::PlayersChallenge)));
    assert_eq!(Header::from_i64(-1), None);
    assert_eq!(ResponseHeader::from_u8(b'T'), None);
    assert_eq!(RequestHeader::from_u8(b'D'), None);
}

#[test]
fn constructors_keep_header_and_payload() {
    let q = SourceQuery::with_response(ResponseHeader::NewInfo, vec![1]);
    assert_eq!(q.header, Header::Response(ResponseHeader::NewInfo));
    assert_eq!(q.data, vec![1]);
    let q = SourceQuery::with_request(RequestHeader::Info, vec![]);
    assert_eq!(q.header, Header::Request(RequestHeader::Info));
    assert!(q.data.is_empty());
}
