use source_query_cacher::pair::split_pair_at;

#[test]
fn pair_splits_at_single_space() {
    assert_eq!(split_pair_at(b"127.0.0.1:27015 127.0.0.1:27016"), Some(15));
    assert_eq!(split_pair_at(b" x"), Some(0));
    assert_eq!(split_pair_at(b"x "), Some(1));
}

#[test]
fn pair_needs_exactly_one_space() {
    assert_eq!(split_pair_at(b"127.0.0.1:27015"), None);
    assert_eq!(split_pair_at(b"a b c"), None);
    assert_eq!(split_pair_at(b"a  b"), None);
    assert_eq!(split_pair_at(b""), None);
}
