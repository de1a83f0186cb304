use source_query_cacher::util::{BytesExt, ResultExt, SocketAddrOrdered};
use std::cmp::Ordering;

#[test]
fn map_option_maps_inner_value() {
    let a: Result<Option<i32>, ()> = Ok(Some(1));
    let a: Result<Option<String>, ()> = a.map_option(|v| v.to_string());
    assert_eq!(a, Ok(Some("1".to_string())));
    let b: Result<Option<i32>, ()> = Ok(None);
    assert_eq!(b.map_option(|v| v + 1), Ok(None));
    let c: Result<Option<i32>, &str> = Err("e");
    assert_eq!(c.map_option(|v| v + 1), Err("e"));
}

#[test]
fn map_option_or_some_uses_default() {
    let a: Result<Option<i32>, ()> = Ok(None);
    let a: Result<Option<String>, ()> =
        a.map_option_or_some("Nothing".to_string(), |v| v.to_string());
    assert_eq!(a, Ok(Some("Nothing".to_string())));
    let b: Result<Option<i32>, ()> = Ok(Some(4));
    assert_eq!(b.map_option_or_some(0, |v| v * 2), Ok(Some(8)));
    let c: Result<Option<i32>, u8> = Err(3);
    assert_eq!(c.map_option_or_some(0, |v| v * 2), Err(3));
}

#[test]
fn i32_bytes_are_big_endian() {
    assert_eq!(<Vec<u8> as BytesExt>::from_i32(1), vec![0, 0, 0, 1]);
    assert_eq!(<Vec<u8> as BytesExt>::from_i32(-1), vec![0xFF; 4]);
    assert_eq!(<Vec<u8> as BytesExt>::from_i32(0x01020304), vec![1, 2, 3, 4]);
    assert_eq!(vec![0x80u8, 0, 0, 0].as_i32(), Some(i32::MIN));
    assert_eq!(vec![1u8, 2, 3, 4].as_i32(), Some(0x01020304));
}

#[test]
fn i32_roundtrip() {
    for n in [0, 1, -1, 42, -1_000_000, i32::MAX, i32::MIN].iter() {
        assert_eq!(<Vec<u8> as BytesExt>::from_i32(*n).as_i32(), Some(*n));
    }
}

#[test]
fn as_i32_needs_exactly_four_bytes() {
    assert_eq!(vec![1u8, 2, 3].as_i32(), None);
    assert_eq!(vec![1u8, 2, 3, 4, 5].as_i32(), None);
    assert_eq!(Vec::<u8>::new().as_i32(), None);
}

#[test]
fn split_packet_check() {
    assert!(vec![0xFFu8, 0xFF, 0xFF, 0xFF, b'D'].is_not_split_packet());
    assert!(!vec![0xFFu8, 0xFF, 0xFF, 0xFF].is_not_split_packet());
    assert!(!vec![0xFEu8, 0xFF, 0xFF, 0xFF, b'D'].is_not_split_packet());
}

#[test]
fn socket_addresses_order_by_ip_then_port() {
    let a = SocketAddrOrdered::from_v4(0x7f000001, 2000);
    let b = SocketAddrOrdered::from_v4(0x7f000001, 3000);
    let c = SocketAddrOrdered::from_v4(0x7f000002, 1000);
    let d = SocketAddrOrdered::from_v6(1, 1, 0, 0);
    assert_eq!(a.partial_cmp(&b), Some(Ordering::Less));
    assert_eq!(b.partial_cmp(&c), Some(Ordering::Less));
    assert_eq!(c.partial_cmp(&d), Some(Ordering::Less));
    assert_eq!(d.partial_cmp(&a), Some(Ordering::Greater));
    assert_eq!(a.partial_cmp(&a), Some(Ordering::Equal));
    assert!(a < d);
    assert_eq!(SocketAddrOrdered::from_key(c.key()), c);
    assert!(a.same(&a) && !a.same(&b));
}

#[test]
fn ipv6_flow_and_scope_are_identity_but_not_order() {
    let a = SocketAddrOrdered::from_v6(5, 80, 1, 2);
    let b = SocketAddrOrdered::from_v6(5, 80, 3, 4);
    assert!(!a.same(&b));
    assert_ne!(a.key(), b.key());
    assert_eq!(a.order_key(), b.order_key());
    assert_eq!(a.partial_cmp(&b), Some(Ordering::Equal));
    assert_eq!(SocketAddrOrdered::from_key(a.key()), a);
}
