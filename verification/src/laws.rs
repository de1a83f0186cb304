//! Properties of the cacher that span several queries.
use crate::addr::{ord_key, AddrKey};
use crate::cacher::{
    cache_at, challenge_expired, expired, fresh_challenge, shape, step, waited_too_long, Cacher,
    LEGACY_INFO, NEW_CHALLENGE, NEW_INFO, PLAYERS,
};
use crate::source_query::{Header, RequestHeader, ResponseHeader, response_byte};
use crate::util::{i32_be_bytes, i32_of_payload, lemma_i32_payload_roundtrip};
use vstd::prelude::*;

verus! {

/// A banned client is ignored: nothing changes and nothing is sent.
pub proof fn lemma_banned_client_ignored(
    pre: Cacher,
    post: Cacher,
    h: Header,
    data: Seq<u8>,
    from: AddrKey,
    now: u64,
    random: i32,
    out: Seq<(Header, Seq<u8>, AddrKey)>,
)
    requires
        step(pre, post, h, data, from, now, random, out),
        pre.banned().contains(from),
    ensures
        out.len() == 0,
        post.banned() == pre.banned(),
        post.cache() == pre.cache(),
        post.queues() == pre.queues(),
        post.challenges() == pre.challenges(),
        post.clock() == pre.clock(),
{
}

/// A ban is never lifted, and a query bans at most its own sender.
pub proof fn lemma_bans_are_permanent(
    pre: Cacher,
    post: Cacher,
    h: Header,
    data: Seq<u8>,
    from: AddrKey,
    now: u64,
    random: i32,
    out: Seq<(Header, Seq<u8>, AddrKey)>,
)
    requires
        step(pre, post, h, data, from, now, random, out),
    ensures
        pre.banned().subset_of(post.banned()),
        post.banned().subset_of(pre.banned().insert(from)),
        post.wf(),
{
}

/// Nothing that the server responds bans anyone.
pub proof fn lemma_server_responses_ban_nobody(
    pre: Cacher,
    post: Cacher,
    r: ResponseHeader,
    data: Seq<u8>,
    now: u64,
    random: i32,
    out: Seq<(Header, Seq<u8>, AddrKey)>,
)
    requires
        step(pre, post, Header::Response(r), data, pre.server(), now, random, out),
    ensures
        post.banned() == pre.banned(),
{
}

/// Only the server fills the cache: after any query, every cached response
/// was cached before, or is the payload of that query, sent by the server
/// with that response header.
pub proof fn lemma_only_server_fills_cache(
    pre: Cacher,
    post: Cacher,
    h: Header,
    data: Seq<u8>,
    from: AddrKey,
    now: u64,
    random: i32,
    out: Seq<(Header, Seq<u8>, AddrKey)>,
    b: u8,
)
    requires
        step(pre, post, h, data, from, now, random, out),
        post.cache().contains_key(b),
    ensures
        ({
            ||| pre.cache().contains_key(b) && post.cache()[b] == pre.cache()[b]
            ||| {
                &&& from == pre.server()
                &&& h matches Header::Response(r) && response_byte(r) == b
                &&& post.cache()[b] == data
            }
        }),
{
}

/// A challenge number handed out is never the number that asks for a new one.
pub proof fn lemma_fresh_challenge_is_not_a_request(random: i32)
    ensures
        fresh_challenge(random) != NEW_CHALLENGE,
{
}

/// The challenge handshake: a client that asks for a challenge number gets
/// one, and when it sends that number back with its next players request
/// before the number expires, it is not banned: it gets the cached players, or it is queued for them
/// while the server is asked. Either way the number is used up.
pub proof fn lemma_challenge_handshake(
    pre: Cacher,
    mid: Cacher,
    post: Cacher,
    client: AddrKey,
    now1: u64,
    now2: u64,
    random1: i32,
    random2: i32,
    out1: Seq<(Header, Seq<u8>, AddrKey)>,
    out2: Seq<(Header, Seq<u8>, AddrKey)>,
)
    requires
        pre.wf(),
        !pre.banned().contains(client),
        step(
            pre,
            mid,
            Header::Request(RequestHeader::Players),
            i32_be_bytes(NEW_CHALLENGE),
            client,
            now1,
            random1,
            out1,
        ),
        step(
            mid,
            post,
            Header::Request(RequestHeader::Players),
            out1[0].1,
            client,
            now2,
            random2,
            out2,
        ),
        !challenge_expired(now1, now2, pre.challenge_ttl_millis()),
    ensures
        out1.len() == 1,
        out1[0] == (
            Header::Response(ResponseHeader::PlayersChallenge),
            i32_be_bytes(fresh_challenge(random1)),
            client,
        ),
        !post.banned().contains(client),
        !post.challenges().contains_key(ord_key(client)),
        out2.len() == 1,
        out2[0] == (
            Header::Response(ResponseHeader::Players),
            cache_at(mid, now2)[PLAYERS],
            client,
        ) || (out2[0] == (
            Header::Request(RequestHeader::Players),
            i32_be_bytes(NEW_CHALLENGE),
            pre.server(),
        ) && post.queues()[PLAYERS].contains_key(client)),
{
    lemma_i32_payload_roundtrip(NEW_CHALLENGE);
    lemma_i32_payload_roundtrip(fresh_challenge(random1));
}

/// A challenge number expires: where unknown challenge numbers are not
/// ignored, a client that asks for a challenge number and sends it back with
/// its next players request only after the number has expired is banned.
pub proof fn lemma_expired_challenge_rejected(
    pre: Cacher,
    mid: Cacher,
    post: Cacher,
    client: AddrKey,
    now1: u64,
    now2: u64,
    random1: i32,
    random2: i32,
    out1: Seq<(Header, Seq<u8>, AddrKey)>,
    out2: Seq<(Header, Seq<u8>, AddrKey)>,
)
    requires
        pre.wf(),
        !pre.banned().contains(client),
        !pre.ignores_unknown_challenges(),
        step(
            pre,
            mid,
            Header::Request(RequestHeader::Players),
            i32_be_bytes(NEW_CHALLENGE),
            client,
            now1,
            random1,
            out1,
        ),
        step(
            mid,
            post,
            Header::Request(RequestHeader::Players),
            i32_be_bytes(fresh_challenge(random1)),
            client,
            now2,
            random2,
            out2,
        ),
        challenge_expired(now1, now2, pre.challenge_ttl_millis()),
    ensures
        post.banned().contains(client),
        out2.len() == 0,
{
    lemma_i32_payload_roundtrip(NEW_CHALLENGE);
    lemma_i32_payload_roundtrip(fresh_challenge(random1));
}

/// A challenge number is good for one request: where unknown challenge
/// numbers are not ignored, sending the same players request twice in a
/// row, with a number that the client was given, bans the client the second
/// time.
pub proof fn lemma_challenge_used_once(
    pre: Cacher,
    mid: Cacher,
    post: Cacher,
    client: AddrKey,
    n: i32,
    now1: u64,
    now2: u64,
    random1: i32,
    random2: i32,
    out1: Seq<(Header, Seq<u8>, AddrKey)>,
    out2: Seq<(Header, Seq<u8>, AddrKey)>,
)
    requires
        pre.wf(),
        n != NEW_CHALLENGE,
        !pre.ignores_unknown_challenges(),
        pre.challenges().contains_key(ord_key(client)),
        step(
            pre,
            mid,
            Header::Request(RequestHeader::Players),
            i32_be_bytes(n),
            client,
            now1,
            random1,
            out1,
        ),
        step(
            mid,
            post,
            Header::Request(RequestHeader::Players),
            i32_be_bytes(n),
            client,
            now2,
            random2,
            out2,
        ),
    ensures
        post.banned().contains(client),
        out2.len() == 0,
{
    lemma_i32_payload_roundtrip(n);
}

/// A client that asks for info while none is cached is queued, and gets
/// the new info response that the server sends next, unless it has waited
/// too long for it by then.
pub proof fn lemma_queued_client_gets_response(
    pre: Cacher,
    mid: Cacher,
    post: Cacher,
    client: AddrKey,
    request: Seq<u8>,
    info: Seq<u8>,
    now1: u64,
    now2: u64,
    random1: i32,
    random2: i32,
    out1: Seq<(Header, Seq<u8>, AddrKey)>,
    out2: Seq<(Header, Seq<u8>, AddrKey)>,
)
    requires
        pre.wf(),
        !pre.banned().contains(client),
        !pre.banned().contains(pre.server()),
        step(pre, mid, Header::Request(RequestHeader::Info), request, client, now1, random1, out1),
        !cache_at(pre, now1).contains_key(LEGACY_INFO),
        !cache_at(pre, now1).contains_key(NEW_INFO),
        step(
            mid,
            post,
            Header::Response(ResponseHeader::NewInfo),
            info,
            mid.server(),
            now2,
            random2,
            out2,
        ),
        !waited_too_long(now1, now2, pre.client_queue_expire()),
    ensures
        mid.queues()[NEW_INFO].contains_key(client),
        exists|i: int|
            0 <= i < out2.len() && out2[i] == (
                Header::Response(ResponseHeader::NewInfo),
                info,
                client,
            ),
        post.cache()[NEW_INFO] == info,
        post.queues()[NEW_INFO].dom().is_empty(),
{
    assert(response_byte(ResponseHeader::NewInfo) == NEW_INFO);
    let ids = out2.map_values(|m: (Header, Seq<u8>, AddrKey)| m.2);
    assert(ids.to_set().contains(client));
    let i = choose|i: int| 0 <= i < ids.len() && ids[i] == client;
    assert(out2[i] == (Header::Response(ResponseHeader::NewInfo), info, client));
}

/// What the server sends is what info requests get from the cache until
/// it expires: after the server's info response, an info request from a
/// client at a time when the cache has not expired is answered with it.
pub proof fn lemma_cached_response_served(
    pre: Cacher,
    mid: Cacher,
    post: Cacher,
    r: ResponseHeader,
    info: Seq<u8>,
    client: AddrKey,
    request: Seq<u8>,
    now1: u64,
    now2: u64,
    random1: i32,
    random2: i32,
    out1: Seq<(Header, Seq<u8>, AddrKey)>,
    out2: Seq<(Header, Seq<u8>, AddrKey)>,
)
    requires
        pre.wf(),
        r == ResponseHeader::LegacyInfo || r == ResponseHeader::NewInfo,
        !pre.banned().contains(pre.server()),
        !pre.banned().contains(client),
        step(pre, mid, Header::Response(r), info, pre.server(), now1, random1, out1),
        !expired(mid, now2),
        step(mid, post, Header::Request(RequestHeader::Info), request, client, now2, random2, out2),
    ensures
        exists|i: int| 0 <= i < out2.len() && out2[i] == (Header::Response(r), info, client),
{
    let b = response_byte(r);
    assert(mid.cache().contains_key(b) && mid.cache()[b] == info);
    if r == ResponseHeader::LegacyInfo {
        assert(out2[0] == (Header::Response(r), info, client));
    } else {
        let i = out2.len() - 1;
        assert(out2[i] == (Header::Response(r), info, client));
    }
}

/// Where unknown challenge numbers are ignored, a players request with a
/// number that was not handed out does not ban the client: it is answered
/// with the cached players, or the client is queued and the server asked.
pub proof fn lemma_unknown_challenge_answered_when_ignored(
    pre: Cacher,
    post: Cacher,
    client: AddrKey,
    n: i32,
    now: u64,
    random: i32,
    out: Seq<(Header, Seq<u8>, AddrKey)>,
)
    requires
        pre.wf(),
        pre.ignores_unknown_challenges(),
        n != NEW_CHALLENGE,
        !pre.banned().contains(client),
        !pre.challenges().contains_key(ord_key(client)),
        step(pre, post, Header::Request(RequestHeader::Players), i32_be_bytes(n), client, now, random, out),
    ensures
        !post.banned().contains(client),
        out.len() == 1,
        out[0] == (
            Header::Response(ResponseHeader::Players),
            cache_at(pre, now)[PLAYERS],
            client,
        ) || (out[0] == (
            Header::Request(RequestHeader::Players),
            i32_be_bytes(NEW_CHALLENGE),
            pre.server(),
        ) && post.queues()[PLAYERS].contains_key(client)),
{
    lemma_i32_payload_roundtrip(n);
}

/// A query as the cacher sees it: header, payload, sender, arrival time,
/// random draw, and the packets sent in answer.
pub type Event = (Header, Seq<u8>, AddrKey, u64, i32, Seq<(Header, Seq<u8>, AddrKey)>);

/// `states` is a run of the cacher through `events`: each state follows
/// from the one before by the event between them.
pub open spec fn is_run(states: Seq<Cacher>, events: Seq<Event>) -> bool {
    &&& states.len() == events.len() + 1
    &&& forall|i: int|
        #![trigger events[i]]
        0 <= i < events.len() ==> step(
            states[i],
            states[i + 1],
            events[i].0,
            events[i].1,
            events[i].2,
            events[i].3,
            events[i].4,
            events[i].5,
        )
}

/// Over a run, every state past the first keeps the invariant and shows a
/// queue for each of the three cached responses, only those responses
/// cached and at most the capacity of challenge numbers; and the addresses,
/// periods and settings of the first state never change.
pub proof fn lemma_run_keeps_shape(states: Seq<Cacher>, events: Seq<Event>, k: int)
    requires
        is_run(states, events),
        states[0].wf(),
        0 <= k < states.len(),
    ensures
        states[k].wf(),
        shape(states[k]),
        states[k].proxy() == states[0].proxy(),
        states[k].server() == states[0].server(),
        states[k].update_period() == states[0].update_period(),
        states[k].client_queue_expire() == states[0].client_queue_expire(),
        states[k].ignores_unknown_challenges() == states[0].ignores_unknown_challenges(),
        states[k].challenge_ttl_millis() == states[0].challenge_ttl_millis(),
    decreases k,
{
    if k > 0 {
        lemma_run_keeps_shape(states, events, k - 1);
        assert(step(
            states[k - 1],
            states[k],
            events[k - 1].0,
            events[k - 1].1,
            events[k - 1].2,
            events[k - 1].3,
            events[k - 1].4,
            events[k - 1].5,
        ));
    }
    Cacher::lemma_wf_shape(states[k]);
}

/// Whether `e` is a response from `server` with the header whose wire byte
/// is `b` (one of the three cached responses) and payload `d`.
pub open spec fn server_sent(e: Event, server: AddrKey, b: u8, d: Seq<u8>) -> bool {
    &&& e.2 == server
    &&& e.0 matches Header::Response(r) && r != ResponseHeader::PlayersChallenge
        && response_byte(r) == b
    &&& e.1 == d
}

/// Every cached response at step `k` of a run is the payload of a response
/// that the server sent at a step before, no earlier than the last time the
/// cache was emptied; and that time is no later than the next event.
pub open spec fn cache_from_server(states: Seq<Cacher>, events: Seq<Event>, k: int) -> bool {
    &&& k < events.len() ==> states[k].clock() <= events[k].3
    &&& forall|b: u8|
        #![trigger states[k].cache().contains_key(b)]
        states[k].cache().contains_key(b) ==> exists|i: int|
            0 <= i < k && server_sent(events[i], states[0].server(), b, states[k].cache()[b])
                && events[i].3 >= states[k].clock()
}

/// Whether the events of a run arrive at times that never go back, the
/// first no earlier than the clock of the first state.
pub open spec fn times_ordered(states: Seq<Cacher>, events: Seq<Event>) -> bool {
    &&& events.len() > 0 ==> states[0].clock() <= events[0].3
    &&& forall|i: int, j: int|
        #![trigger events[i], events[j]]
        0 <= i <= j < events.len() ==> events[i].3 <= events[j].3
}

proof fn lemma_cache_from_server(states: Seq<Cacher>, events: Seq<Event>, k: int)
    requires
        is_run(states, events),
        states[0].wf(),
        states[0].cache().dom().is_empty(),
        times_ordered(states, events),
        0 <= k < states.len(),
    ensures
        cache_from_server(states, events, k),
    decreases k,
{
    if k == 0 {
        assert forall|b: u8| !states[0].cache().contains_key(b) by {
            assert(!states[0].cache().dom().contains(b));
        }
    } else {
        lemma_cache_from_server(states, events, k - 1);
        lemma_run_keeps_shape(states, events, k - 1);
        let pre = states[k - 1];
        let post = states[k];
        let e = events[k - 1];
        assert(step(pre, post, e.0, e.1, e.2, e.3, e.4, e.5));
        if k < events.len() {
            assert(events[k - 1].3 <= events[k].3);
        }
        assert forall|b: u8| #[trigger] post.cache().contains_key(b) implies exists|i: int|
            0 <= i < k && server_sent(events[i], states[0].server(), b, post.cache()[b])
                && events[i].3 >= post.clock() by {
            if pre.cache().contains_key(b) && post.cache()[b] == pre.cache()[b]
                && post.clock() == pre.clock() {
                let i = choose|i: int|
                    0 <= i < k - 1 && server_sent(events[i], states[0].server(), b, pre.cache()[b])
                        && events[i].3 >= pre.clock();
                assert(0 <= i < k);
            } else {
                assert(server_sent(events[k - 1], states[0].server(), b, post.cache()[b]));
                assert(events[k - 1].3 >= post.clock());
            }
        }
    }
}

/// Over a run from an empty cache whose events arrive in time order, every
/// info or players response sent to anyone carries a payload that the
/// server sent with that header no longer than the update period before:
/// nothing older than the update period is served from the cache.
pub proof fn lemma_served_responses_are_fresh(
    states: Seq<Cacher>,
    events: Seq<Event>,
    j: int,
    p: int,
)
    requires
        is_run(states, events),
        states[0].wf(),
        states[0].cache().dom().is_empty(),
        times_ordered(states, events),
        0 <= j < events.len(),
        0 <= p < events[j].5.len(),
        events[j].5[p].0 matches Header::Response(r) && r != ResponseHeader::PlayersChallenge,
    ensures
        exists|i: int|
            0 <= i <= j && events[i].2 == states[0].server() && events[i].0 == events[j].5[p].0
                && events[i].1 == events[j].5[p].1 && events[j].3 <= events[i].3
                + states[0].update_period(),
{
    lemma_cache_from_server(states, events, j);
    lemma_run_keeps_shape(states, events, j);
    let pre = states[j];
    let post = states[j + 1];
    let e = events[j];
    assert(step(pre, post, e.0, e.1, e.2, e.3, e.4, e.5));
    let m = e.5[p];
    if m.1 == e.1 && e.2 == pre.server() && e.0 == m.0 {
        assert(events[j].3 <= events[j].3 + states[0].update_period());
    } else {
        // The packet comes from the cache, which has not expired.
        let b = match m.0 {
            Header::Response(r) => response_byte(r),
            _ => 0u8,
        };
        assert(!expired(pre, e.3));
        assert(pre.cache().contains_key(b) && pre.cache()[b] == m.1);
        let i = choose|i: int|
            0 <= i < j && server_sent(events[i], states[0].server(), b, pre.cache()[b])
                && events[i].3 >= pre.clock();
        assert(events[i].0 == m.0);
    }
}

/// Once no challenge number is stored for a client, it stays so until a
/// client ordered as it asks for a new one; where unknown challenge numbers
/// are not ignored, a players request from it with any other number until
/// then bans it. So a challenge number, once used, is never accepted again.
pub proof fn lemma_used_challenge_stays_used(
    states: Seq<Cacher>,
    events: Seq<Event>,
    s: int,
    j: int,
    client: AddrKey,
    n: i32,
)
    requires
        is_run(states, events),
        states[0].wf(),
        !states[0].ignores_unknown_challenges(),
        0 <= s <= j < events.len(),
        !states[s].challenges().contains_key(ord_key(client)),
        forall|i: int|
            #![trigger events[i]]
            s <= i < j ==> !(events[i].0 == Header::Request(RequestHeader::Players)
                && i32_of_payload(events[i].1) == Some(NEW_CHALLENGE) && ord_key(events[i].2)
                == ord_key(client)),
        events[j].0 == Header::Request(RequestHeader::Players),
        events[j].1 == i32_be_bytes(n),
        n != NEW_CHALLENGE,
        events[j].2 == client,
    ensures
        states[j + 1].banned().contains(client),
        events[j].5.len() == 0,
    decreases j - s,
{
    lemma_run_keeps_shape(states, events, j);
    if s < j {
        let e = events[s];
        assert(step(states[s], states[s + 1], e.0, e.1, e.2, e.3, e.4, e.5));
        assert(!states[s + 1].challenges().contains_key(ord_key(client)));
        lemma_used_challenge_stays_used(states, events, s + 1, j, client, n);
    } else {
        let e = events[j];
        assert(step(states[j], states[j + 1], e.0, e.1, e.2, e.3, e.4, e.5));
        lemma_i32_payload_roundtrip(n);
        if !states[j].banned().contains(client) {
            assert(states[j + 1].banned().contains(client));
        } else {
            assert(states[j + 1].banned() == states[j].banned());
        }
    }
}

/// A request at a time when the cache has outlived the update period empties
/// the cache and restarts its clock at that time; at any other time a
/// request leaves the cache and its clock as they were.
pub proof fn lemma_request_restarts_expired_cache(
    pre: Cacher,
    post: Cacher,
    h: RequestHeader,
    data: Seq<u8>,
    from: AddrKey,
    now: u64,
    random: i32,
    out: Seq<(Header, Seq<u8>, AddrKey)>,
)
    requires
        pre.wf(),
        !pre.banned().contains(from),
        step(pre, post, Header::Request(h), data, from, now, random, out),
    ensures
        now >= pre.clock() && now - pre.clock() > pre.update_period() ==> post.clock() == now
            && post.cache() == Map::<u8, Seq<u8>>::empty(),
        !(now >= pre.clock() && now - pre.clock() > pre.update_period()) ==> post.clock()
            == pre.clock() && post.cache() == pre.cache(),
{
}

/// A response that the server sends after a request emptied the expired
/// cache is served to every info request that arrives within the update
/// period of that request.
pub proof fn lemma_refilled_cache_served(
    pre: Cacher,
    s1: Cacher,
    s2: Cacher,
    s3: Cacher,
    r: ResponseHeader,
    info: Seq<u8>,
    client1: AddrKey,
    client3: AddrKey,
    request1: Seq<u8>,
    request3: Seq<u8>,
    t1: u64,
    t2: u64,
    t3: u64,
    random1: i32,
    random2: i32,
    random3: i32,
    out1: Seq<(Header, Seq<u8>, AddrKey)>,
    out2: Seq<(Header, Seq<u8>, AddrKey)>,
    out3: Seq<(Header, Seq<u8>, AddrKey)>,
)
    requires
        pre.wf(),
        r == ResponseHeader::LegacyInfo || r == ResponseHeader::NewInfo,
        !pre.banned().contains(client1),
        !pre.banned().contains(pre.server()),
        !pre.banned().contains(client3),
        t1 >= pre.clock() && t1 - pre.clock() > pre.update_period(),
        step(pre, s1, Header::Request(RequestHeader::Info), request1, client1, t1, random1, out1),
        step(s1, s2, Header::Response(r), info, pre.server(), t2, random2, out2),
        step(s2, s3, Header::Request(RequestHeader::Info), request3, client3, t3, random3, out3),
        t1 <= t3 && t3 - t1 <= pre.update_period(),
    ensures
        exists|i: int| 0 <= i < out3.len() && out3[i] == (Header::Response(r), info, client3),
{
    let b = response_byte(r);
    assert(s1.clock() == t1);
    assert(s2.clock() == t1);
    assert(s2.cache().contains_key(b) && s2.cache()[b] == info);
    assert(!expired(s2, t3));
    if r == ResponseHeader::LegacyInfo {
        assert(out3[0] == (Header::Response(r), info, client3));
    } else {
        let i = out3.len() - 1;
        assert(out3[i] == (Header::Response(r), info, client3));
    }
}

/// A client whose players request carries the challenge number it was
/// handed, before that number expires, while no players response is cached,
/// is queued for the players response with the time of its request, and the
/// server is asked; the server's next players response is then sent to it
/// whenever it arrives no later than the client-queue expire time after the
/// request.
pub proof fn lemma_queued_players_client_served(
    pre: Cacher,
    mid: Cacher,
    post: Cacher,
    client: AddrKey,
    c: i32,
    players: Seq<u8>,
    now1: u64,
    now2: u64,
    random1: i32,
    random2: i32,
    out1: Seq<(Header, Seq<u8>, AddrKey)>,
    out2: Seq<(Header, Seq<u8>, AddrKey)>,
)
    requires
        pre.wf(),
        !pre.banned().contains(client),
        !pre.banned().contains(pre.server()),
        !pre.cache().contains_key(PLAYERS),
        c != NEW_CHALLENGE,
        pre.challenges().contains_key(ord_key(client)),
        pre.challenges()[ord_key(client)].0 == c,
        !(now1 >= pre.challenges()[ord_key(client)].1 && now1 - pre.challenges()[ord_key(
            client,
        )].1 > pre.challenge_ttl_millis()),
        step(
            pre,
            mid,
            Header::Request(RequestHeader::Players),
            i32_be_bytes(c),
            client,
            now1,
            random1,
            out1,
        ),
        step(
            mid,
            post,
            Header::Response(ResponseHeader::Players),
            players,
            pre.server(),
            now2,
            random2,
            out2,
        ),
        now1 <= now2 && now2 - now1 <= pre.client_queue_expire(),
    ensures
        !mid.banned().contains(client),
        mid.queues()[PLAYERS].contains_key(client),
        mid.queues()[PLAYERS][client] == now1,
        out1 == seq![
            (Header::Request(RequestHeader::Players), i32_be_bytes(NEW_CHALLENGE), pre.server()),
        ],
        exists|i: int|
            0 <= i < out2.len() && out2[i] == (
                Header::Response(ResponseHeader::Players),
                players,
                client,
            ),
        post.cache()[PLAYERS] == players,
{
    lemma_i32_payload_roundtrip(c);
    assert(response_byte(ResponseHeader::Players) == PLAYERS);
    assert(!cache_at(pre, now1).contains_key(PLAYERS));
    let ids = out2.map_values(|m: (Header, Seq<u8>, AddrKey)| m.2);
    assert(ids.to_set().contains(client));
    let i = choose|i: int| 0 <= i < ids.len() && ids[i] == client;
    assert(out2[i] == (Header::Response(ResponseHeader::Players), players, client));
}

/// An info or players response from anyone but the server bans its sender
/// and sends nothing; the cache, the queues and the challenge numbers stay
/// as they were.
pub proof fn lemma_foreign_response_bans(
    pre: Cacher,
    post: Cacher,
    r: ResponseHeader,
    data: Seq<u8>,
    from: AddrKey,
    now: u64,
    random: i32,
    out: Seq<(Header, Seq<u8>, AddrKey)>,
)
    requires
        r != ResponseHeader::PlayersChallenge,
        from != pre.server(),
        !pre.banned().contains(from),
        step(pre, post, Header::Response(r), data, from, now, random, out),
    ensures
        post.banned() == pre.banned().insert(from),
        out.len() == 0,
        post.cache() == pre.cache(),
        post.queues() == pre.queues(),
        post.challenges() == pre.challenges(),
{
}

/// Handshakes of two clients may interleave: a client's request for a
/// challenge number leaves the number already handed to another client as
/// it was, where the store keeps it (the store drops numbers by its own
/// clock, and its least recently used ones when full); the first client then
/// sends its number back before it expires and is answered, not banned.
pub proof fn lemma_interleaved_handshakes(
    pre: Cacher,
    s1: Cacher,
    s2: Cacher,
    s3: Cacher,
    a: AddrKey,
    b: AddrKey,
    t1: u64,
    t2: u64,
    t3: u64,
    random1: i32,
    random2: i32,
    random3: i32,
    out1: Seq<(Header, Seq<u8>, AddrKey)>,
    out2: Seq<(Header, Seq<u8>, AddrKey)>,
    out3: Seq<(Header, Seq<u8>, AddrKey)>,
)
    requires
        pre.wf(),
        !pre.banned().contains(a),
        !pre.banned().contains(b),
        ord_key(a) != ord_key(b),
        step(
            pre,
            s1,
            Header::Request(RequestHeader::Players),
            i32_be_bytes(NEW_CHALLENGE),
            a,
            t1,
            random1,
            out1,
        ),
        step(
            s1,
            s2,
            Header::Request(RequestHeader::Players),
            i32_be_bytes(NEW_CHALLENGE),
            b,
            t2,
            random2,
            out2,
        ),
        s2.challenges().contains_key(ord_key(a)),
        step(
            s2,
            s3,
            Header::Request(RequestHeader::Players),
            i32_be_bytes(fresh_challenge(random1)),
            a,
            t3,
            random3,
            out3,
        ),
        !(t3 >= t1 && t3 - t1 > pre.challenge_ttl_millis()),
    ensures
        out1 == seq![
            (
                Header::Response(ResponseHeader::PlayersChallenge),
                i32_be_bytes(fresh_challenge(random1)),
                a,
            ),
        ],
        out2 == seq![
            (
                Header::Response(ResponseHeader::PlayersChallenge),
                i32_be_bytes(fresh_challenge(random2)),
                b,
            ),
        ],
        s2.challenges()[ord_key(a)] == (fresh_challenge(random1), t1),
        s2.challenges()[ord_key(b)] == (fresh_challenge(random2), t2),
        !s3.banned().contains(a),
        !s3.challenges().contains_key(ord_key(a)),
        out3.len() == 1,
        out3[0] == (
            Header::Response(ResponseHeader::Players),
            cache_at(s2, t3)[PLAYERS],
            a,
        ) || (out3[0] == (
            Header::Request(RequestHeader::Players),
            i32_be_bytes(NEW_CHALLENGE),
            pre.server(),
        ) && s3.queues()[PLAYERS].contains_key(a)),
{
    lemma_i32_payload_roundtrip(NEW_CHALLENGE);
    lemma_i32_payload_roundtrip(fresh_challenge(random1));
}

} // verus!
