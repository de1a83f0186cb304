use source_query_cacher::cached_query::{CachedQuery, CachedQueryError, Response};

#[test]
fn cached_query_test_encoder() {
    let mut codec = CachedQuery::new();
    let mut dst = Vec::new();
    let item = CachedQuery { header: Response::Players, data: vec![1, 2, 3] };
    assert!(codec.encode(item, &mut dst).is_ok());
    assert_eq!(dst, vec![0xFF, 0xFF, 0xFF, 0xFF, b'D', 1, 2, 3]);
}

#[test]
fn cached_query_new_is_invalid_and_empty() {
    let q = CachedQuery::new();
    assert_eq!(q.header, Response::Invalid);
    assert!(q.data.is_empty());
}

#[test]
fn cached_query_decode() {
    let mut codec = CachedQuery::new();
    let mut buf = vec![0xFF, 0xFF, 0xFF, 0xFF, b'I', 1, 2];
    let q = codec.decode(&mut buf).unwrap().unwrap();
    assert_eq!(q.header, Response::New);
    assert_eq!(q.data, vec![0xFF; 4]);
    assert_eq!(buf, vec![b'I', 1, 2]);

    let mut buf = vec![0xFF, 0xFF, 0xFF, 0xFF, b'E'];
    assert_eq!(codec.decode(&mut buf).unwrap().unwrap().header, Response::Invalid);

    let mut buf = vec![0xFF, 0xFF, 0xFF, 0xFF, b'T'];
    assert!(matches!(codec.decode(&mut buf), Err(CachedQueryError::InvalidData)));
    assert_eq!(buf.len(), 5);

    let mut buf = vec![1, 2, 3];
    assert!(matches!(codec.decode(&mut buf), Ok(None)));
}

#[test]
fn cached_response_bytes() {
    assert_eq!(Response::from_u8(b'm'), Some(Response::Legacy));
    assert_eq!(Response::from_u8(b'D'), Some(Response::Players));
    assert_eq!(Response::from_u8(b'E'), Some(Response::Invalid));
    assert_eq!(Response::from_u8(b'A'), None);
    assert_eq!(Response::Legacy.to_u8(), b'm');
    assert_eq!(Response::New.to_u8(), b'I');
}
