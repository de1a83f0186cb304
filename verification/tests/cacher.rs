use source_query_cacher::cacher::{
    run_failure_policy, stream_retry_policy, Cacher, Outgoing, RetryDecision, SocketErrorKind,
};
use source_query_cacher::source_query::{Header, RequestHeader, ResponseHeader, SourceQuery};
use source_query_cacher::util::{BytesExt, SocketAddrOrdered};

fn proxy() -> SocketAddrOrdered {
    SocketAddrOrdered::from_v4(0x7f000001, 27015)
}

fn server() -> SocketAddrOrdered {
    SocketAddrOrdered::from_v4(0x7f000001, 27016)
}

fn client(n: u16) -> SocketAddrOrdered {
    SocketAddrOrdered::from_v4(0x0a000001, 40000 + n)
}

fn fresh() -> Cacher {
    Cacher::new(proxy(), server(), 1000, 5000, 1_000_000, false, 0)
}

fn query(c: &mut Cacher, h: Header, data: Vec<u8>, from: SocketAddrOrdered, now: u64) -> Vec<Outgoing> {
    c.process_query_with(&(SourceQuery::with(h, data), from), now, 12345)
}

fn info_request() -> Header {
    Header::Request(RequestHeader::Info)
}

fn players_request() -> Header {
    Header::Request(RequestHeader::Players)
}

fn i32_bytes(n: i32) -> Vec<u8> {
    <Vec<u8> as BytesExt>::from_i32(n)
}

#[test]
fn info_request_with_empty_cache_asks_server() {
    let mut c = fresh();
    let out = query(&mut c, info_request(), b"Source Engine Query\0".to_vec(), client(1), 1);
    assert_eq!(out.len(), 1);
    assert_eq!(out[0].0.header, Header::Request(RequestHeader::Info));
    assert_eq!(out[0].0.data, b"Source Engine Query".to_vec());
    assert_eq!(out[0].1, server());
}

#[test]
fn server_info_response_goes_to_queued_clients_and_cache() {
    let mut c = fresh();
    query(&mut c, info_request(), vec![], client(1), 1);
    query(&mut c, info_request(), vec![], client(2), 2);
    let out = query(&mut c, Header::Response(ResponseHeader::NewInfo), vec![9, 9], server(), 3);
    assert_eq!(out.len(), 2);
    let mut to: Vec<SocketAddrOrdered> = out.iter().map(|m| m.1).collect();
    to.sort_by_key(|a| a.key());
    assert_eq!(to, vec![client(1), client(2)]);
    for m in out.iter() {
        assert_eq!(m.0.header, Header::Response(ResponseHeader::NewInfo));
        assert_eq!(m.0.data, vec![9, 9]);
    }
    // Served from the cache now.
    let out = query(&mut c, info_request(), vec![], client(3), 4);
    assert_eq!(out.len(), 1);
    assert_eq!(out[0].0.header, Header::Response(ResponseHeader::NewInfo));
    assert_eq!(out[0].0.data, vec![9, 9]);
    assert_eq!(out[0].1, client(3));
    // The legacy queue still holds the first two clients.
    let out = query(&mut c, Header::Response(ResponseHeader::LegacyInfo), vec![1], server(), 5);
    assert_eq!(out.len(), 2);
}

#[test]
fn cached_info_sends_legacy_first() {
    let mut c = fresh();
    query(&mut c, Header::Response(ResponseHeader::NewInfo), vec![2], server(), 1);
    query(&mut c, Header::Response(ResponseHeader::LegacyInfo), vec![1], server(), 2);
    let out = query(&mut c, info_request(), vec![], client(1), 3);
    assert_eq!(out.len(), 2);
    assert_eq!(out[0].0.header, Header::Response(ResponseHeader::LegacyInfo));
    assert_eq!(out[1].0.header, Header::Response(ResponseHeader::NewInfo));
}

#[test]
fn cache_expires_after_update_period() {
    let mut c = fresh();
    query(&mut c, Header::Response(ResponseHeader::NewInfo), vec![2], server(), 0);
    let out = query(&mut c, info_request(), vec![], client(1), 1000);
    assert_eq!(out[0].1, client(1));
    let out = query(&mut c, info_request(), vec![], client(1), 1001);
    assert_eq!(out.len(), 1);
    assert_eq!(out[0].1, server());
}

#[test]
fn response_from_non_server_bans_sender() {
    let mut c = fresh();
    let out = query(&mut c, Header::Response(ResponseHeader::Players), vec![1], client(7), 1);
    assert!(out.is_empty());
    // Banned: even a proper request is ignored now.
    let out = query(&mut c, info_request(), vec![], client(7), 2);
    assert!(out.is_empty());
    // Others are still served.
    let out = query(&mut c, info_request(), vec![], client(8), 3);
    assert_eq!(out.len(), 1);
}

#[test]
fn challenge_handshake_then_players_from_cache() {
    let mut c = fresh();
    query(&mut c, Header::Response(ResponseHeader::Players), vec![4, 5], server(), 1);
    let out = query(&mut c, players_request(), i32_bytes(-1), client(1), 2);
    assert_eq!(out.len(), 1);
    assert_eq!(out[0].0.header, Header::Response(ResponseHeader::PlayersChallenge));
    assert_eq!(out[0].0.data, i32_bytes(12345));
    assert_eq!(out[0].1, client(1));
    let out = query(&mut c, players_request(), i32_bytes(12345), client(1), 3);
    assert_eq!(out.len(), 1);
    assert_eq!(out[0].0.header, Header::Response(ResponseHeader::Players));
    assert_eq!(out[0].0.data, vec![4, 5]);
    // The number is used up: sending it again bans the client.
    let out = query(&mut c, players_request(), i32_bytes(12345), client(1), 4);
    assert!(out.is_empty());
    let out = query(&mut c, info_request(), vec![], client(1), 5);
    assert!(out.is_empty());
}

#[test]
fn random_draw_of_minus_one_gives_zero() {
    let mut c = fresh();
    let out = c.process_query_with(
        &(SourceQuery::with(players_request(), i32_bytes(-1)), client(1)),
        1,
        -1,
    );
    assert_eq!(out[0].0.data, i32_bytes(0));
}

#[test]
fn challenge_with_empty_cache_queues_client_and_asks_server() {
    let mut c = fresh();
    query(&mut c, players_request(), i32_bytes(-1), client(1), 1);
    let out = query(&mut c, players_request(), i32_bytes(12345), client(1), 2);
    assert_eq!(out.len(), 1);
    assert_eq!(out[0].0.header, Header::Request(RequestHeader::Players));
    assert_eq!(out[0].0.data, i32_bytes(-1));
    assert_eq!(out[0].1, server());
    // The server hands the proxy a challenge number; the proxy asks with it.
    let out = query(&mut c, Header::Response(ResponseHeader::PlayersChallenge), i32_bytes(77), server(), 3);
    assert_eq!(out.len(), 1);
    assert_eq!(out[0].0.header, Header::Request(RequestHeader::Players));
    assert_eq!(out[0].0.data, i32_bytes(77));
    assert_eq!(out[0].1, server());
    // The players arrive and go to the queued client.
    let out = query(&mut c, Header::Response(ResponseHeader::Players), vec![3], server(), 4);
    assert_eq!(out.len(), 1);
    assert_eq!(out[0].1, client(1));
    assert_eq!(out[0].0.data, vec![3]);
}

#[test]
fn wrong_challenge_is_ignored_but_used_up() {
    let mut c = fresh();
    query(&mut c, players_request(), i32_bytes(-1), client(1), 1);
    let out = query(&mut c, players_request(), i32_bytes(5), client(1), 2);
    assert!(out.is_empty());
    // Not banned.
    let out = query(&mut c, players_request(), i32_bytes(-1), client(1), 3);
    assert_eq!(out.len(), 1);
}

#[test]
fn unknown_challenge_or_bad_payload_bans() {
    let mut c = fresh();
    let out = query(&mut c, players_request(), i32_bytes(5), client(1), 1);
    assert!(out.is_empty());
    assert!(query(&mut c, info_request(), vec![], client(1), 2).is_empty());
    let out = query(&mut c, players_request(), vec![1, 2, 3], client(2), 3);
    assert!(out.is_empty());
    assert!(query(&mut c, info_request(), vec![], client(2), 4).is_empty());
}

#[test]
fn challenge_response_without_number_is_ignored() {
    let mut c = fresh();
    let out = query(&mut c, Header::Response(ResponseHeader::PlayersChallenge), vec![1], client(1), 1);
    assert!(out.is_empty());
    // Not banned.
    assert_eq!(query(&mut c, info_request(), vec![], client(1), 2).len(), 1);
    // With a number but not from the server: banned.
    let out = query(&mut c, Header::Response(ResponseHeader::PlayersChallenge), i32_bytes(1), client(1), 3);
    assert!(out.is_empty());
    assert!(query(&mut c, info_request(), vec![], client(1), 4).is_empty());
}

#[test]
fn overfull_queue_is_emptied() {
    let mut c = fresh();
    for i in 0..1001u16 {
        query(&mut c, info_request(), vec![], client(i), 1);
    }
    // The next request empties the over-full queues before queueing itself.
    query(&mut c, info_request(), vec![], client(2000), 1);
    let out = query(&mut c, Header::Response(ResponseHeader::NewInfo), vec![1], server(), 1);
    assert_eq!(out.len(), 1);
    assert_eq!(out[0].1, client(2000));
}

#[test]
fn process_query_draws_a_challenge() {
    let mut c = fresh();
    let out = c.process_query(&(SourceQuery::with(players_request(), i32_bytes(-1)), client(1)), 1);
    assert_eq!(out.len(), 1);
    assert_ne!(out[0].0.data.as_i32(), Some(-1));
    let n = out[0].0.data.as_i32().unwrap();
    let out = c.process_query(&(SourceQuery::with(players_request(), i32_bytes(n)), client(1)), 2);
    assert_eq!(out.len(), 1);
    assert_eq!(out[0].1, server());
}

#[test]
fn retry_policy() {
    assert_eq!(stream_retry_policy(SocketErrorKind::Interrupted), RetryDecision::Repeat);
    assert_eq!(stream_retry_policy(SocketErrorKind::BrokenPipe), RetryDecision::Repeat);
    assert_eq!(stream_retry_policy(SocketErrorKind::PermissionDenied), RetryDecision::ForwardError);
    assert_eq!(stream_retry_policy(SocketErrorKind::Unlisted), RetryDecision::WaitRetryMillis(1));
}

#[test]
fn failure_restarts_after_a_millisecond() {
    assert_eq!(run_failure_policy(), RetryDecision::WaitRetryMillis(1));
}

#[test]
fn queued_clients_that_waited_too_long_are_not_served() {
    let mut c = Cacher::new(proxy(), server(), 1_000_000, 5000, 100, false, 0);
    query(&mut c, info_request(), vec![], client(1), 0);
    query(&mut c, info_request(), vec![], client(2), 50);
    let out = query(&mut c, Header::Response(ResponseHeader::NewInfo), vec![1], server(), 120);
    assert_eq!(out.len(), 1);
    assert_eq!(out[0].1, client(2));
    // The queue is empty now.
    let out = query(&mut c, Header::Response(ResponseHeader::NewInfo), vec![1], server(), 121);
    assert!(out.is_empty());
}

#[test]
fn queue_clean_up_drops_clients_that_waited_too_long() {
    let mut c = Cacher::new(proxy(), server(), 1_000_000, 5000, 100, false, 0);
    query(&mut c, info_request(), vec![], client(1), 0);
    // A request at time 200 cleans up the queues first, then queues client 2.
    query(&mut c, info_request(), vec![], client(2), 200);
    let out = query(&mut c, Header::Response(ResponseHeader::LegacyInfo), vec![1], server(), 250);
    assert_eq!(out.len(), 1);
    assert_eq!(out[0].1, client(2));
}

#[test]
fn unknown_challenge_is_answered_when_ignored() {
    let mut c = Cacher::new(proxy(), server(), 1000, 5000, 1_000_000, true, 0);
    query(&mut c, Header::Response(ResponseHeader::Players), vec![7], server(), 1);
    let out = query(&mut c, players_request(), i32_bytes(99), client(1), 2);
    assert_eq!(out.len(), 1);
    assert_eq!(out[0].0.header, Header::Response(ResponseHeader::Players));
    assert_eq!(out[0].0.data, vec![7]);
    assert_eq!(out[0].1, client(1));
    // A payload without a number still bans.
    assert!(query(&mut c, players_request(), vec![1], client(2), 3).is_empty());
    assert!(query(&mut c, info_request(), vec![], client(2), 4).is_empty());
}

#[test]
fn challenge_is_shared_by_addresses_that_order_equal() {
    let mut c = fresh();
    let a = SocketAddrOrdered::from_v6(9, 1000, 1, 0);
    let b = SocketAddrOrdered::from_v6(9, 1000, 2, 0);
    query(&mut c, Header::Response(ResponseHeader::Players), vec![4], server(), 1);
    query(&mut c, players_request(), i32_bytes(-1), a, 2);
    let out = query(&mut c, players_request(), i32_bytes(12345), b, 3);
    assert_eq!(out.len(), 1);
    assert_eq!(out[0].1, b);
    // Banning one does not ban the other: they are different clients.
    query(&mut c, Header::Response(ResponseHeader::Players), vec![4], a, 4);
    assert!(query(&mut c, info_request(), vec![], a, 5).is_empty());
    assert_eq!(query(&mut c, info_request(), vec![], b, 6).len(), 1);
}

#[test]
fn challenge_numbers_expire() {
    let mut c = Cacher::new(proxy(), server(), 1_000_000, 1000, 1_000_000, false, 0);
    query(&mut c, Header::Response(ResponseHeader::Players), vec![4], server(), 0);
    // Sent back in time: accepted.
    query(&mut c, players_request(), i32_bytes(-1), client(1), 0);
    let out = query(&mut c, players_request(), i32_bytes(12345), client(1), 1000);
    assert_eq!(out.len(), 1);
    assert_eq!(out[0].0.data, vec![4]);
    // Sent back too late: the number is unknown and the client is banned.
    query(&mut c, players_request(), i32_bytes(-1), client(2), 0);
    let out = query(&mut c, players_request(), i32_bytes(12345), client(2), 10_000);
    assert!(out.is_empty());
    assert!(query(&mut c, info_request(), vec![], client(2), 10_001).is_empty());
}

#[test]
fn expired_challenge_is_answered_when_unknown_numbers_are_ignored() {
    let mut c = Cacher::new(proxy(), server(), 1_000_000, 1000, 1_000_000, true, 0);
    query(&mut c, Header::Response(ResponseHeader::Players), vec![4], server(), 0);
    query(&mut c, players_request(), i32_bytes(-1), client(1), 0);
    let out = query(&mut c, players_request(), i32_bytes(7), client(1), 10_000);
    assert_eq!(out.len(), 1);
    assert_eq!(out[0].0.data, vec![4]);
}
