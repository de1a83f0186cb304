//! The decisions of the cacher: for every query that reaches the proxy,
//! which packets go out, to whom, and how the cache, the client queues, the
//! challenge numbers and the ban list change.
//!
//! The proxy's socket, its clock and the sending of packets stay with the
//! caller: a query comes in with the time it arrived, and the packets to
//! send come back as a list. Times, the update period, the time that a
//! client may wait in a queue and the time that a challenge number is good
//! for are counted in milliseconds; the program counts time from the start
//! of the cacher.
use crate::addr::{ord_key, AddrKey, OrdKey, SocketAddrOrdered};
use crate::source_query::{Header, RequestHeader, ResponseHeader, SourceQuery, response_byte};
use crate::store::{
    fnv_clients_insert, fnv_clients_into_vec, fnv_clients_len, fnv_clients_new, fnv_map_clear,
    fnv_map_get, fnv_map_get_mut, fnv_map_insert, fnv_map_new, fnv_set_contains, fnv_set_insert,
    fnv_set_new, lru_capacity, lru_entries, lru_insert, lru_new, lru_remove, lru_ttl_millis,
    random_i32, MAX_TTL_MILLIS,
};
use crate::util::{i32_be_bytes, i32_of_payload, BytesExt};
use fnv::{FnvHashMap, FnvHashSet};
use lru_time_cache::LruCache;
use vstd::prelude::*;

verus! {

/// A client queue holding more clients than this is emptied: the server
/// has likely not answered.
pub const QUEUE_LIMIT: usize = 1000;

/// The number of challenge numbers kept at most.
pub const CHALLENGE_CAPACITY: usize = 1000;

/// The challenge number that asks for a new challenge number.
pub const NEW_CHALLENGE: i32 = -1;

/// The wire byte of the legacy info response, the key of its cache entry and queue.
pub const LEGACY_INFO: u8 = 0x6d;

/// The wire byte of the new info response, the key of its cache entry and queue.
pub const NEW_INFO: u8 = 0x49;

/// The wire byte of the players response, the key of its cache entry and queue.
pub const PLAYERS: u8 = 0x44;

/// A packet to send and the address to send it to.
pub type Outgoing = (SourceQuery, SocketAddrOrdered);

/// A packet to send as plain values: header, payload and recipient.
pub open spec fn sent_view(m: Outgoing) -> (Header, Seq<u8>, AddrKey) {
    (m.0.header, m.0.data@, m.1@)
}

/// The packets to send as plain values.
pub open spec fn sent(v: Seq<Outgoing>) -> Seq<(Header, Seq<u8>, AddrKey)> {
    v.map_values(|m: Outgoing| sent_view(m))
}

/// The keys of the client queues: the responses that clients wait for.
pub open spec fn queue_keys() -> Set<u8> {
    set![LEGACY_INFO, NEW_INFO, PLAYERS]
}

/// The payload of the info request sent to the server.
pub open spec fn info_query_payload() -> Seq<u8> {
    // "Source Engine Query"
    seq![
        0x53u8, 0x6f, 0x75, 0x72, 0x63, 0x65, 0x20, 0x45, 0x6e, 0x67, 0x69, 0x6e, 0x65, 0x20,
        0x51, 0x75, 0x65, 0x72, 0x79,
    ]
}

/// The bytes of the info request payload.
fn info_query_bytes() -> (v: Vec<u8>)
    ensures
        v@ == info_query_payload(),
{
    let v: Vec<u8> = vec![
        0x53u8, 0x6f, 0x75, 0x72, 0x63, 0x65, 0x20, 0x45, 0x6e, 0x67, 0x69, 0x6e, 0x65, 0x20,
        0x51, 0x75, 0x65, 0x72, 0x79,
    ];
    assert(v@ =~= info_query_payload());
    v
}

/// A copy of a payload.
fn copy_bytes(v: &Vec<u8>) -> (r: Vec<u8>)
    ensures
        r@ == v@,
{
    let mut r: Vec<u8> = Vec::with_capacity(v.len());
    let n = v.len();
    let mut i: usize = 0;
    while i < n
        invariant
            n == v@.len(),
            i <= n,
            r@ == v@.take(i as int),
        decreases n - i,
    {
        r.push(v[i]);
        i = i + 1;
        assert(v@.take(i as int) =~= v@.take(i - 1) + seq![v@[i - 1]]);
    }
    assert(v@.take(n as int) =~= v@);
    r
}

/// The challenge number handed out for the random draw `random`: the draw
/// itself, but never the number that asks for a new one.
pub open spec fn fresh_challenge(random: i32) -> i32 {
    if random == NEW_CHALLENGE {
        0
    } else {
        random
    }
}

/// The packets of `out` are `header` with `data`, one to each of `clients`.
pub open spec fn delivered(
    out: Seq<(Header, Seq<u8>, AddrKey)>,
    clients: Set<AddrKey>,
    header: Header,
    data: Seq<u8>,
) -> bool {
    &&& out.len() == clients.len()
    &&& forall|i: int| 0 <= i < out.len() ==> (#[trigger] out[i]).0 == header && out[i].1 == data
    &&& out.map_values(|m: (Header, Seq<u8>, AddrKey)| m.2).no_duplicates()
    &&& out.map_values(|m: (Header, Seq<u8>, AddrKey)| m.2).to_set() == clients
}

/// Whether a challenge number handed out at time `issued` has expired at
/// time `now`, for numbers that are good for `ttl` milliseconds.
pub open spec fn challenge_expired(issued: u64, now: u64, ttl: nat) -> bool {
    now >= issued && now - issued > ttl
}

/// The challenge numbers `after` are `before` with `k` mapped to `v`, less
/// any entries that the cache dropped on the way.
pub open spec fn challenge_stored(
    before: Map<OrdKey, (i32, u64)>,
    after: Map<OrdKey, (i32, u64)>,
    k: OrdKey,
    v: (i32, u64),
) -> bool {
    &&& after.contains_key(k)
    &&& after[k] == v
    &&& forall|j: OrdKey|
        #![trigger after.contains_key(j)]
        j != k && after.contains_key(j) ==> before.contains_key(j) && after[j] == before[j]
    &&& before.contains_key(k) ==> after == before.insert(k, v)
}

/// Whether a client queued at time `since` has waited longer than `expire`
/// at time `now`.
pub open spec fn waited_too_long(since: u64, now: u64, expire: u64) -> bool {
    now >= since && now - since > expire
}

/// The clients of queue `q` that have not waited too long at time `now`.
pub open spec fn live(q: Map<AddrKey, u64>, now: u64, expire: u64) -> Map<AddrKey, u64> {
    Map::new(
        |k: AddrKey| q.contains_key(k) && !waited_too_long(q[k], now, expire),
        |k: AddrKey| q[k],
    )
}

/// The queues after the clean-up at time `now`: a queue of more than
/// [`QUEUE_LIMIT`] clients is emptied, and from the others the clients
/// that waited too long are dropped.
pub open spec fn gc_queues(q: Map<u8, Map<AddrKey, u64>>, now: u64, expire: u64) -> Map<
    u8,
    Map<AddrKey, u64>,
> {
    q.map_values(|m: Map<AddrKey, u64>| gc_queue_at(m, now, expire))
}

/// One queue after the clean-up at time `now`: emptied if it holds more
/// than [`QUEUE_LIMIT`] clients, else without the clients that waited too
/// long.
pub open spec fn gc_queue_at(m: Map<AddrKey, u64>, now: u64, expire: u64) -> Map<AddrKey, u64> {
    if m.len() > QUEUE_LIMIT {
        Map::<AddrKey, u64>::empty()
    } else {
        live(m, now, expire)
    }
}

/// The state of the proxy for one game server.
pub struct Cacher {
    addr: SocketAddrOrdered,
    server_addr: SocketAddrOrdered,
    banned_clients: FnvHashSet<AddrKey>,
    cached_responses: FnvHashMap<u8, Vec<u8>>,
    challenge_numbers: LruCache<OrdKey, (i32, u64)>,
    clients_in_queue: FnvHashMap<u8, FnvHashMap<AddrKey, u64>>,
    clock: u64,
    update_period: u64,
    client_queue_expire: u64,
    ignore_unknown_challenge_numbers: bool,
    challenge_number_expire: u64,
}

impl Cacher {
    /// The address that the proxy listens on.
    pub closed spec fn proxy(&self) -> AddrKey {
        self.addr@
    }

    /// The address of the game server.
    pub closed spec fn server(&self) -> AddrKey {
        self.server_addr@
    }

    /// The clients that are banned.
    pub closed spec fn banned(&self) -> Set<AddrKey> {
        self.banned_clients@
    }

    /// The cached responses, by the wire byte of their header.
    pub closed spec fn cache(&self) -> Map<u8, Seq<u8>> {
        self.cached_responses@.map_values(|v: Vec<u8>| v@)
    }

    /// The challenge numbers handed out and when, by what their clients are
    /// ordered by.
    pub closed spec fn challenges(&self) -> Map<OrdKey, (i32, u64)> {
        lru_entries(self.challenge_numbers)
    }

    /// How long, in milliseconds, a challenge number is good for.
    pub closed spec fn challenge_ttl_millis(&self) -> nat {
        lru_ttl_millis(self.challenge_numbers)
    }

    /// The clients waiting for a response, with the time each was queued,
    /// by the wire byte of the response's header.
    pub closed spec fn queues(&self) -> Map<u8, Map<AddrKey, u64>> {
        self.clients_in_queue@.map_values(|m: FnvHashMap<AddrKey, u64>| m@)
    }

    /// When the cache was last emptied.
    pub closed spec fn clock(&self) -> u64 {
        self.clock
    }

    /// How long the cache is kept before it is emptied.
    pub closed spec fn update_period(&self) -> u64 {
        self.update_period
    }

    /// How long a client may wait in a queue.
    pub closed spec fn client_queue_expire(&self) -> u64 {
        self.client_queue_expire
    }

    /// Whether players requests with a challenge number that was not handed
    /// out are answered rather than banned.
    pub closed spec fn ignores_unknown_challenges(&self) -> bool {
        self.ignore_unknown_challenge_numbers
    }

    /// The invariant of the state: a finite queue for each of the three
    /// cached responses, only those responses cached, and the challenge
    /// cache made with its capacity and a time to live that it can add to
    /// the clock, and holding no more than its capacity.
    pub closed spec fn wf(&self) -> bool {
        &&& self.clients_in_queue@.dom() == queue_keys()
        &&& forall|b: u8| #[trigger]
            queue_keys().contains(b) ==> self.clients_in_queue@[b]@.dom().finite()
        &&& self.cached_responses@.dom().subset_of(queue_keys())
        &&& lru_capacity(self.challenge_numbers) == CHALLENGE_CAPACITY
        &&& lru_ttl_millis(self.challenge_numbers) <= MAX_TTL_MILLIS
        &&& lru_ttl_millis(self.challenge_numbers) == self.challenge_number_expire
        &&& lru_entries(self.challenge_numbers).dom().finite()
        &&& lru_entries(self.challenge_numbers).len() <= CHALLENGE_CAPACITY
    }
}

/// What every state of the cacher shows: a queue for each of the three
/// cached responses and no other, only those responses cached, and at most
/// [`CHALLENGE_CAPACITY`] challenge numbers kept.
pub open spec fn shape(c: Cacher) -> bool {
    &&& c.queues().dom() == queue_keys()
    &&& c.cache().dom().subset_of(queue_keys())
    &&& c.challenges().dom().finite()
    &&& c.challenges().len() <= CHALLENGE_CAPACITY
}

/// `post` is `pre` but for the parts given here.
pub open spec fn state_is(
    post: Cacher,
    pre: Cacher,
    banned: Set<AddrKey>,
    cache: Map<u8, Seq<u8>>,
    queues: Map<u8, Map<AddrKey, u64>>,
    clock: u64,
) -> bool {
    &&& post.wf()
    &&& post.proxy() == pre.proxy()
    &&& post.server() == pre.server()
    &&& post.update_period() == pre.update_period()
    &&& post.client_queue_expire() == pre.client_queue_expire()
    &&& post.ignores_unknown_challenges() == pre.ignores_unknown_challenges()
    &&& post.challenge_ttl_millis() == pre.challenge_ttl_millis()
    &&& post.banned() == banned
    &&& post.cache() == cache
    &&& post.queues() == queues
    &&& post.clock() == clock
}

/// `post` is `pre`.
pub open spec fn unchanged(post: Cacher, pre: Cacher) -> bool {
    &&& state_is(post, pre, pre.banned(), pre.cache(), pre.queues(), pre.clock())
    &&& post.challenges() == pre.challenges()
}

/// `post` is `pre` with `client` banned.
pub open spec fn banned_now(post: Cacher, pre: Cacher, client: AddrKey) -> bool {
    &&& state_is(post, pre, pre.banned().insert(client), pre.cache(), pre.queues(), pre.clock())
    &&& post.challenges() == pre.challenges()
}

/// Whether the cache has outlived the update period at time `now`.
pub open spec fn expired(pre: Cacher, now: u64) -> bool {
    now >= pre.clock() && now - pre.clock() > pre.update_period()
}

/// The cache at time `now`: emptied once it has expired.
pub open spec fn cache_at(pre: Cacher, now: u64) -> Map<u8, Seq<u8>> {
    if expired(pre, now) {
        Map::empty()
    } else {
        pre.cache()
    }
}

/// The clock at time `now`: reset when the cache expired.
pub open spec fn clock_at(pre: Cacher, now: u64) -> u64 {
    if expired(pre, now) {
        now
    } else {
        pre.clock()
    }
}

/// The info responses in `cache`, addressed to `to`: the legacy one first.
pub open spec fn cached_info(cache: Map<u8, Seq<u8>>, to: AddrKey) -> Seq<
    (Header, Seq<u8>, AddrKey),
> {
    (if cache.contains_key(LEGACY_INFO) {
        seq![(Header::Response(ResponseHeader::LegacyInfo), cache[LEGACY_INFO], to)]
    } else {
        seq![]
    }) + (if cache.contains_key(NEW_INFO) {
        seq![(Header::Response(ResponseHeader::NewInfo), cache[NEW_INFO], to)]
    } else {
        seq![]
    })
}

/// What a response with header `h` and payload `data` from `from` at time
/// `now` does.
///
/// An info or players response from the server is cached and sent to every
/// client waiting for it that has not waited too long; its queue is
/// emptied. From anyone else it bans the sender. A challenge number from
/// the server is used to ask the server for its players; from anyone else
/// it bans the sender; without a number it is ignored.
pub open spec fn response_step(
    pre: Cacher,
    post: Cacher,
    h: ResponseHeader,
    data: Seq<u8>,
    from: AddrKey,
    now: u64,
    out: Seq<(Header, Seq<u8>, AddrKey)>,
) -> bool {
    match h {
        ResponseHeader::PlayersChallenge => match i32_of_payload(data) {
            None => unchanged(post, pre) && out == Seq::<(Header, Seq<u8>, AddrKey)>::empty(),
            Some(i) => if from != pre.server() {
                banned_now(post, pre, from) && out == Seq::<(Header, Seq<u8>, AddrKey)>::empty()
            } else {
                &&& unchanged(post, pre)
                &&& out == seq![(Header::Request(RequestHeader::Players), i32_be_bytes(i), pre.server())]
            },
        },
        _ => if from == pre.server() {
            let b = response_byte(h);
            &&& state_is(
                post,
                pre,
                pre.banned(),
                pre.cache().insert(b, data),
                pre.queues().insert(b, Map::empty()),
                pre.clock(),
            )
            &&& post.challenges() == pre.challenges()
            &&& delivered(
                out,
                live(pre.queues()[b], now, pre.client_queue_expire()).dom(),
                Header::Response(h),
                data,
            )
        } else {
            banned_now(post, pre, from) && out == Seq::<(Header, Seq<u8>, AddrKey)>::empty()
        },
    }
}

/// How an accepted players request from `from` at time `now` is answered,
/// given the cache, queues and clock after the clean-ups: from the cache,
/// or, with no players cached, by queueing the client and asking the server.
pub open spec fn players_answer(
    pre: Cacher,
    post: Cacher,
    from: AddrKey,
    now: u64,
    cache: Map<u8, Seq<u8>>,
    queues: Map<u8, Map<AddrKey, u64>>,
    clock: u64,
    out: Seq<(Header, Seq<u8>, AddrKey)>,
) -> bool {
    if cache.contains_key(PLAYERS) {
        &&& state_is(post, pre, pre.banned(), cache, queues, clock)
        &&& out == seq![(Header::Response(ResponseHeader::Players), cache[PLAYERS], from)]
    } else {
        &&& state_is(
            post,
            pre,
            pre.banned(),
            cache,
            queues.insert(PLAYERS, queues[PLAYERS].insert(from, now)),
            clock,
        )
        &&& out == seq![
            (Header::Request(RequestHeader::Players), i32_be_bytes(NEW_CHALLENGE), pre.server()),
        ]
    }
}

/// What a players request with payload `data` from `from` at time `now`
/// does, given the cache, queues and clock after the clean-ups and the
/// random draw.
///
/// A request for a new challenge number stores a fresh number, with the
/// time, for the client and sends it to him. Any other number uses up the
/// number stored for the client, if any. The number handed to the client,
/// while it has not expired, is answered by [`players_answer`]; another
/// number is ignored. A number where none was handed out, or where the one
/// handed out has expired, is answered too when the cacher ignores unknown
/// challenge numbers, and bans the client otherwise. A request without a
/// number bans the client.
pub open spec fn players_step(
    pre: Cacher,
    post: Cacher,
    data: Seq<u8>,
    from: AddrKey,
    now: u64,
    random: i32,
    cache: Map<u8, Seq<u8>>,
    queues: Map<u8, Map<AddrKey, u64>>,
    clock: u64,
    out: Seq<(Header, Seq<u8>, AddrKey)>,
) -> bool {
    let ok = ord_key(from);
    match i32_of_payload(data) {
        None => {
            &&& state_is(post, pre, pre.banned().insert(from), cache, queues, clock)
            &&& post.challenges() == pre.challenges()
            &&& out == Seq::<(Header, Seq<u8>, AddrKey)>::empty()
        },
        Some(c) => if c == NEW_CHALLENGE {
            let n = fresh_challenge(random);
            &&& state_is(post, pre, pre.banned(), cache, queues, clock)
            &&& challenge_stored(pre.challenges(), post.challenges(), ok, (n, now))
            &&& out == seq![
                (Header::Response(ResponseHeader::PlayersChallenge), i32_be_bytes(n), from),
            ]
        } else {
            &&& post.challenges() == pre.challenges().remove(ok)
            &&& if challenge_known(pre, ok, now) {
                if pre.challenges()[ok].0 == c {
                    players_answer(pre, post, from, now, cache, queues, clock, out)
                } else {
                    &&& state_is(post, pre, pre.banned(), cache, queues, clock)
                    &&& out == Seq::<(Header, Seq<u8>, AddrKey)>::empty()
                }
            } else if pre.ignores_unknown_challenges() {
                players_answer(pre, post, from, now, cache, queues, clock, out)
            } else {
                &&& state_is(post, pre, pre.banned().insert(from), cache, queues, clock)
                &&& out == Seq::<(Header, Seq<u8>, AddrKey)>::empty()
            }
        },
    }
}

/// Whether a challenge number handed out to clients ordered as `ok` is
/// held and has not expired at time `now`.
pub open spec fn challenge_known(pre: Cacher, ok: OrdKey, now: u64) -> bool {
    &&& pre.challenges().contains_key(ok)
    &&& !challenge_expired(pre.challenges()[ok].1, now, pre.challenge_ttl_millis())
}

/// What a request with header `h` and payload `data` from `from` at time
/// `now` does, given the cache and clock after the expiry check and the
/// random draw.
///
/// First the queues are cleaned up at time `now`. An info request is then
/// answered from the cache; with no info cached, the client is queued for
/// both info responses and the server is asked. A players request goes by
/// [`players_step`].
pub open spec fn request_body(
    pre: Cacher,
    post: Cacher,
    h: RequestHeader,
    data: Seq<u8>,
    from: AddrKey,
    now: u64,
    random: i32,
    cache: Map<u8, Seq<u8>>,
    clock: u64,
    out: Seq<(Header, Seq<u8>, AddrKey)>,
) -> bool {
    let queues = gc_queues(pre.queues(), now, pre.client_queue_expire());
    match h {
        RequestHeader::Info => if !cache.contains_key(LEGACY_INFO) && !cache.contains_key(
            NEW_INFO,
        ) {
            &&& state_is(
                post,
                pre,
                pre.banned(),
                cache,
                queues.insert(NEW_INFO, queues[NEW_INFO].insert(from, now)).insert(
                    LEGACY_INFO,
                    queues[LEGACY_INFO].insert(from, now),
                ),
                clock,
            )
            &&& post.challenges() == pre.challenges()
            &&& out == seq![
                (Header::Request(RequestHeader::Info), info_query_payload(), pre.server()),
            ]
        } else {
            &&& state_is(post, pre, pre.banned(), cache, queues, clock)
            &&& post.challenges() == pre.challenges()
            &&& out == cached_info(cache, from)
        },
        RequestHeader::Players => players_step(
            pre,
            post,
            data,
            from,
            now,
            random,
            cache,
            queues,
            clock,
            out,
        ),
    }
}

/// What a request with header `h` and payload `data` from `from` at time
/// `now` does: the cache is first emptied if it has expired, then the
/// request goes by [`request_body`].
pub open spec fn request_step(
    pre: Cacher,
    post: Cacher,
    h: RequestHeader,
    data: Seq<u8>,
    from: AddrKey,
    now: u64,
    random: i32,
    out: Seq<(Header, Seq<u8>, AddrKey)>,
) -> bool {
    request_body(pre, post, h, data, from, now, random, cache_at(pre, now), clock_at(pre, now), out)
}

/// What a query with header `h` and payload `data` from `from` at time
/// `now`, with `random` drawn, does: nothing for a banned client, else by
/// [`response_step`] or [`request_step`].
pub open spec fn step(
    pre: Cacher,
    post: Cacher,
    h: Header,
    data: Seq<u8>,
    from: AddrKey,
    now: u64,
    random: i32,
    out: Seq<(Header, Seq<u8>, AddrKey)>,
) -> bool {
    if pre.banned().contains(from) {
        unchanged(post, pre) && out == Seq::<(Header, Seq<u8>, AddrKey)>::empty()
    } else {
        match h {
            Header::Response(r) => response_step(pre, post, r, data, from, now, out),
            Header::Request(r) => request_step(pre, post, r, data, from, now, random, out),
        }
    }
}

/// The clients of `q` that have not waited too long at time `now`.
fn live_clients(q: FnvHashMap<AddrKey, u64>, now: u64, expire: u64) -> (r: FnvHashMap<AddrKey, u64>)
    ensures
        r@ == live(q@, now, expire),
        r@.dom().finite(),
{
    let ghost qv = q@;
    let entries = fnv_clients_into_vec(q);
    let mut fresh = fnv_clients_new();
    let n = entries.len();
    let mut i: usize = 0;
    while i < n
        invariant
            n == entries@.len(),
            i <= n,
            fresh@.dom().finite(),
            forall|j: int|
                #![trigger entries@[j]]
                0 <= j < n ==> qv.contains_key(entries@[j].0) && qv[entries@[j].0] == entries@[j].1,
            forall|k: AddrKey|
                #![trigger fresh@.contains_key(k)]
                fresh@.contains_key(k) ==> live(qv, now, expire).contains_key(k) && fresh@[k] == qv[k],
            forall|j: int|
                #![trigger entries@[j]]
                0 <= j < i && !waited_too_long(entries@[j].1, now, expire) ==> fresh@.contains_key(entries@[j].0),
        decreases n - i,
    {
        let (k, t) = entries[i];
        assert(entries@[i as int] == (k, t));
        if !(now >= t && now - t > expire) {
            fnv_clients_insert(&mut fresh, k, t);
        }
        i = i + 1;
    }
    assert forall|k: AddrKey| live(qv, now, expire).contains_key(k) implies #[trigger] fresh@.contains_key(k) by {
        let j = choose|j: int| 0 <= j < entries@.len() && entries@[j].0 == k;
        assert(qv.contains_key(entries@[j].0));
    }
    assert(fresh@ =~= live(qv, now, expire));
    fresh
}

impl Cacher {
    /// What every state shows, from its invariant.
    pub proof fn lemma_wf_shape(c: Cacher)
        requires
            c.wf(),
        ensures
            shape(c),
    {
        assert(c.queues().dom() =~= queue_keys());
        assert(c.cache().dom() =~= c.cached_responses@.dom());
    }

    /// A fresh state for the proxy at `addr` in front of the server at
    /// `server_addr`, at time `now`. All times are in milliseconds: the cache
    /// is kept for `update_period`, a challenge number is good for
    /// `challenge_number_expire`, and a client waits in a queue for at most
    /// `client_queue_expire`. With `ignore_unknown_challenge_numbers`, players
    /// requests with a number that was not handed out, or has expired, are
    /// answered rather than banned.
    pub fn new(
        addr: SocketAddrOrdered,
        server_addr: SocketAddrOrdered,
        update_period: u64,
        challenge_number_expire: u64,
        client_queue_expire: u64,
        ignore_unknown_challenge_numbers: bool,
        now: u64,
    ) -> (c: Self)
        requires
            challenge_number_expire <= MAX_TTL_MILLIS,
        ensures
            c.wf(),
            shape(c),
            c.proxy() == addr@,
            c.server() == server_addr@,
            c.banned() == Set::<AddrKey>::empty(),
            c.cache() == Map::<u8, Seq<u8>>::empty(),
            c.challenges().dom().is_empty(),
            c.challenge_ttl_millis() == challenge_number_expire,
            c.queues().dom() == queue_keys(),
            forall|b: u8| #[trigger] queue_keys().contains(b) ==> c.queues()[b] == Map::<AddrKey, u64>::empty(),
            c.clock() == now,
            c.update_period() == update_period,
            c.client_queue_expire() == client_queue_expire,
            c.ignores_unknown_challenges() == ignore_unknown_challenge_numbers,
    {
        let mut clients_in_queue: FnvHashMap<u8, FnvHashMap<AddrKey, u64>> = fnv_map_new();
        fnv_map_insert(&mut clients_in_queue, LEGACY_INFO, fnv_clients_new());
        fnv_map_insert(&mut clients_in_queue, NEW_INFO, fnv_clients_new());
        fnv_map_insert(&mut clients_in_queue, PLAYERS, fnv_clients_new());
        let cached_responses: FnvHashMap<u8, Vec<u8>> = fnv_map_new();
        let c = Cacher {
            addr,
            server_addr,
            banned_clients: fnv_set_new(),
            cached_responses,
            challenge_numbers: lru_new(challenge_number_expire, CHALLENGE_CAPACITY),
            clients_in_queue,
            clock: now,
            update_period,
            client_queue_expire,
            ignore_unknown_challenge_numbers,
            challenge_number_expire,
        };
        assert(c.clients_in_queue@.dom() =~= queue_keys());
        assert(c.cache() =~= Map::<u8, Seq<u8>>::empty());
        assert forall|b: u8| #[trigger] queue_keys().contains(b) implies c.queues()[b] == Map::<AddrKey, u64>::empty() by {
            assert(c.queues()[b] =~= Map::<AddrKey, u64>::empty());
        }
        proof {
            Cacher::lemma_wf_shape(c);
        }
        c
    }

    /// Cleans up the queue under `b` at time `now`.
    pub fn gc_queue(&mut self, b: u8, now: u64)
        requires
            old(self).wf(),
            queue_keys().contains(b),
        ensures
            state_is(
                *final(self),
                *old(self),
                old(self).banned(),
                old(self).cache(),
                old(self).queues().insert(
                    b,
                    gc_queue_at(old(self).queues()[b], now, old(self).client_queue_expire()),
                ),
                old(self).clock(),
            ),
            final(self).challenges() == old(self).challenges(),
    {
        let prev = fnv_map_insert(&mut self.clients_in_queue, b, fnv_clients_new());
        let q = match prev {
            Some(q) => q,
            None => fnv_clients_new(),
        };
        assert(q@ == old(self).queues()[b]);
        if fnv_clients_len(&q) <= QUEUE_LIMIT {
            let fresh = live_clients(q, now, self.client_queue_expire);
            fnv_map_insert(&mut self.clients_in_queue, b, fresh);
        } else {
            assert(self.clients_in_queue@[b]@ =~= Map::<AddrKey, u64>::empty());
        }
        assert(self.clients_in_queue@.dom() =~= queue_keys());
        assert(self.queues() =~= old(self).queues().insert(
            b,
            gc_queue_at(old(self).queues()[b], now, old(self).client_queue_expire()),
        ));
    }

    /// Cleans up every queue at time `now`: a queue of more than
    /// [`QUEUE_LIMIT`] clients is emptied, as the server has likely not
    /// answered, and clients that waited too long are dropped.
    pub fn gc(&mut self, now: u64)
        requires
            old(self).wf(),
        ensures
            state_is(
                *final(self),
                *old(self),
                old(self).banned(),
                old(self).cache(),
                gc_queues(old(self).queues(), now, old(self).client_queue_expire()),
                old(self).clock(),
            ),
            final(self).challenges() == old(self).challenges(),
    {
        self.gc_queue(LEGACY_INFO, now);
        self.gc_queue(NEW_INFO, now);
        self.gc_queue(PLAYERS, now);
        assert(self.queues() =~= gc_queues(old(self).queues(), now, old(self).client_queue_expire()));
    }

    /// Empties the cache, and restarts its clock, once it has outlived the
    /// update period at time `now`.
    pub fn clear_cache_if_needed(&mut self, now: u64)
        requires
            old(self).wf(),
        ensures
            state_is(
                *final(self),
                *old(self),
                old(self).banned(),
                cache_at(*old(self), now),
                old(self).queues(),
                clock_at(*old(self), now),
            ),
            final(self).challenges() == old(self).challenges(),
            now >= old(self).clock() && now - old(self).clock() > old(self).update_period()
                ==> final(self).clock() == now && final(self).cache().dom().is_empty(),
    {
        if now >= self.clock && now - self.clock > self.update_period {
            self.clock = now;
            fnv_map_clear(&mut self.cached_responses);
            assert(self.cache() =~= Map::<u8, Seq<u8>>::empty());
        }
    }

    /// Nothing to send.
    fn ignore_request() -> (out: Vec<Outgoing>)
        ensures
            sent(out@) == Seq::<(Header, Seq<u8>, AddrKey)>::empty(),
    {
        Vec::new()
    }

    /// Bans `addr`; nothing to send.
    pub fn ban_client(&mut self, addr: SocketAddrOrdered) -> (out: Vec<Outgoing>)
        requires
            old(self).wf(),
        ensures
            banned_now(*final(self), *old(self), addr@),
            sent(out@) == Seq::<(Header, Seq<u8>, AddrKey)>::empty(),
    {
        fnv_set_insert(&mut self.banned_clients, addr.key());
        let out = Cacher::ignore_request();
        out
    }

    /// Sends `header` with `data` to every client in the queue of `header`
    /// that has not waited too long at time `now`, and empties that queue.
    pub fn exhaust_queue(&mut self, header: ResponseHeader, data: &Vec<u8>, now: u64) -> (out: Vec<Outgoing>)
        requires
            old(self).wf(),
            header != ResponseHeader::PlayersChallenge,
        ensures
            state_is(
                *final(self),
                *old(self),
                old(self).banned(),
                old(self).cache(),
                old(self).queues().insert(response_byte(header), Map::<AddrKey, u64>::empty()),
                old(self).clock(),
            ),
            final(self).challenges() == old(self).challenges(),
            delivered(
                sent(out@),
                live(old(self).queues()[response_byte(header)], now, old(self).client_queue_expire()).dom(),
                Header::Response(header),
                data@,
            ),
    {
        let b = header.to_u8();
        let prev = fnv_map_insert(&mut self.clients_in_queue, b, fnv_clients_new());
        assert(self.clients_in_queue@[b]@ =~= Map::<AddrKey, u64>::empty());
        assert(self.queues() =~= old(self).queues().insert(b, Map::<AddrKey, u64>::empty()));
        assert(self.clients_in_queue@.dom() =~= queue_keys());
        let q = match prev {
            Some(q) => q,
            None => fnv_clients_new(),
        };
        let waiting = live_clients(q, now, self.client_queue_expire);
        let ghost wv = waiting@;
        let clients = fnv_clients_into_vec(waiting);
        let mut out: Vec<Outgoing> = Vec::new();
        let n = clients.len();
        let mut i: usize = 0;
        while i < n
            invariant
                n == clients@.len(),
                i <= n,
                out@.len() == i,
                forall|j: int|
                    0 <= j < i ==> #[trigger] sent_view(out@[j]) == (
                        Header::Response(header),
                        data@,
                        clients@[j].0,
                    ),
            decreases n - i,
        {
            let q = SourceQuery::with_response(header, copy_bytes(data));
            let (k, _t) = clients[i];
            out.push((q, SocketAddrOrdered::from_key(k)));
            i = i + 1;
        }
        let ghost o = sent(out@);
        let ghost ids = clients@.map_values(|e: (AddrKey, u64)| e.0);
        assert(o.map_values(|m: (Header, Seq<u8>, AddrKey)| m.2) =~= ids) by {
            assert forall|j: int| 0 <= j < n implies o[j] == sent_view(out@[j]) by {}
        }
        assert(ids.to_set() =~= wv.dom()) by {
            assert forall|k: AddrKey| wv.contains_key(k) implies ids.to_set().contains(k) by {
                let j = choose|j: int| 0 <= j < clients@.len() && clients@[j].0 == k;
                assert(ids[j] == k);
            }
        }
        proof {
            ids.unique_seq_to_set();
        }
        assert forall|j: int| 0 <= j < o.len() implies (#[trigger] o[j]).0 == Header::Response(
            header,
        ) && o[j].1 == data@ by {
            assert(o[j] == sent_view(out@[j]));
        }
        out
    }
}

impl Cacher {
    /// One packet to send.
    fn single(q: SourceQuery, to: SocketAddrOrdered) -> (out: Vec<Outgoing>)
        ensures
            sent(out@) == seq![(q.header, q.data@, to@)],
    {
        let mut out: Vec<Outgoing> = Vec::new();
        out.push((q, to));
        assert(sent(out@) =~= seq![(q.header, q.data@, to@)]);
        out
    }

    /// Adds `addr`, queued at time `now`, to the queue under `b`.
    pub fn add_client_to_queue(&mut self, b: u8, addr: &SocketAddrOrdered, now: u64)
        requires
            old(self).wf(),
            queue_keys().contains(b),
        ensures
            state_is(
                *final(self),
                *old(self),
                old(self).banned(),
                old(self).cache(),
                old(self).queues().insert(b, old(self).queues()[b].insert(addr@, now)),
                old(self).clock(),
            ),
            final(self).challenges() == old(self).challenges(),
    {
        let q = fnv_map_get_mut(&mut self.clients_in_queue, b);
        fnv_clients_insert(q, addr.key(), now);
        assert(self.clients_in_queue@.dom() =~= queue_keys());
        assert(self.queues() =~= old(self).queues().insert(b, old(self).queues()[b].insert(addr@, now)));
        assert(self.wf());
    }

    /// Answers an accepted players request from `addr` at time `now`: with
    /// the cached players, or, with none cached, by queueing the client and
    /// asking the server.
    pub fn answer_players(&mut self, addr: &SocketAddrOrdered, now: u64) -> (out: Vec<Outgoing>)
        requires
            old(self).wf(),
        ensures
            players_answer(
                *old(self),
                *final(self),
                addr@,
                now,
                old(self).cache(),
                old(self).queues(),
                old(self).clock(),
                sent(out@),
            ),
            final(self).challenges() == old(self).challenges(),
            !old(self).cache().contains_key(PLAYERS) ==> final(self).queues()[PLAYERS].contains_key(
                addr@,
            ) && final(self).queues()[PLAYERS][addr@] == now,
    {
        match fnv_map_get(&self.cached_responses, PLAYERS) {
            Some(players) => {
                let q = SourceQuery::with_response(ResponseHeader::Players, copy_bytes(players));
                Cacher::single(q, *addr)
            },
            None => {
                self.add_client_to_queue(PLAYERS, addr, now);
                let q = SourceQuery::with_request(
                    RequestHeader::Players,
                    <Vec<u8> as BytesExt>::from_i32(NEW_CHALLENGE),
                );
                Cacher::single(q, self.server_addr)
            },
        }
    }

    /// Handles a response with header `header` and payload `data` from
    /// `addr`, arriving at time `now`.
    pub fn process_response(&mut self, header: &ResponseHeader, data: &Vec<u8>, addr: &SocketAddrOrdered, now: u64) -> (out: Vec<Outgoing>)
        requires
            old(self).wf(),
        ensures
            response_step(*old(self), *final(self), *header, data@, addr@, now, sent(out@)),
            *header != ResponseHeader::PlayersChallenge && addr@ != old(self).server()
                ==> final(self).banned() == old(self).banned().insert(addr@) && out@.len() == 0,
    {
        match header {
            ResponseHeader::PlayersChallenge => {
                match data.as_i32() {
                    Some(i) => {
                        if !addr.same(&self.server_addr) {
                            self.ban_client(*addr)
                        } else {
                            let q = SourceQuery::with_request(RequestHeader::Players, <Vec<u8> as BytesExt>::from_i32(i));
                            Cacher::single(q, self.server_addr)
                        }
                    },
                    None => Cacher::ignore_request(),
                }
            },
            _ => {
                if addr.same(&self.server_addr) {
                    let b = header.to_u8();
                    fnv_map_insert(&mut self.cached_responses, b, copy_bytes(data));
                    assert(self.cache() =~= old(self).cache().insert(b, data@));
                    self.exhaust_queue(*header, data, now)
                } else {
                    let out = self.ban_client(*addr);
                    assert(sent(out@).len() == out@.len());
                    out
                }
            },
        }
    }

    /// Handles a players request with payload `data` from `addr` at time
    /// `now`, with `random` drawn for a new challenge number.
    pub fn process_players_request(&mut self, data: &Vec<u8>, addr: &SocketAddrOrdered, now: u64, random: i32) -> (out: Vec<Outgoing>)
        requires
            old(self).wf(),
        ensures
            players_step(
                *old(self),
                *final(self),
                data@,
                addr@,
                now,
                random,
                old(self).cache(),
                old(self).queues(),
                old(self).clock(),
                sent(out@),
            ),
    {
        if let Some(challenge) = data.as_i32() {
            if challenge == NEW_CHALLENGE {
                // The client asks for a new challenge number.
                let new_challenge_number = if random == NEW_CHALLENGE {
                    0
                } else {
                    random
                };
                let ghost before = self.challenges();
                lru_insert(&mut self.challenge_numbers, addr.order_key(), (new_challenge_number, now));
                proof {
                    assert(self.challenges().dom().subset_of(before.dom().insert(ord_key(addr@))));
                    vstd::set_lib::lemma_len_subset(self.challenges().dom(), before.dom().insert(ord_key(addr@)));
                }
                let q = SourceQuery::with_response(
                    ResponseHeader::PlayersChallenge,
                    <Vec<u8> as BytesExt>::from_i32(new_challenge_number),
                );
                return Cacher::single(q, *addr);
            }
            let ghost before = self.challenges();
            let removed = lru_remove(&mut self.challenge_numbers, &addr.order_key());
            proof {
                vstd::set_lib::lemma_len_subset(self.challenges().dom(), before.dom());
            }
            if let Some((etalon_challenge, issued)) = removed {
                if !(now >= issued && now - issued > self.challenge_number_expire) {
                    if etalon_challenge == challenge {
                        return self.answer_players(addr, now);
                    } else {
                        return Cacher::ignore_request();
                    }
                }
            }
            if self.ignore_unknown_challenge_numbers {
                return self.answer_players(addr, now);
            }
            let out = self.ban_client(*addr);
            return out;
        }
        self.ban_client(*addr)
    }

    /// Handles a request with header `header` and payload `data` from
    /// `addr` at time `now`, with `random` drawn for a new challenge number.
    pub fn process_request(&mut self, header: &RequestHeader, data: &Vec<u8>, addr: &SocketAddrOrdered, now: u64, random: i32) -> (out: Vec<Outgoing>)
        requires
            old(self).wf(),
        ensures
            request_body(
                *old(self),
                *final(self),
                *header,
                data@,
                addr@,
                now,
                random,
                old(self).cache(),
                old(self).clock(),
                sent(out@),
            ),
    {
        self.gc(now);
        match header {
            RequestHeader::Info => {
                let legacy = fnv_map_get(&self.cached_responses, LEGACY_INFO);
                let new = fnv_map_get(&self.cached_responses, NEW_INFO);
                if legacy.is_none() && new.is_none() {
                    self.add_client_to_queue(NEW_INFO, addr, now);
                    self.add_client_to_queue(LEGACY_INFO, addr, now);
                    let q = SourceQuery::with_request(RequestHeader::Info, info_query_bytes());
                    Cacher::single(q, self.server_addr)
                } else {
                    let mut out: Vec<Outgoing> = Vec::new();
                    if let Some(legacy) = legacy {
                        out.push((SourceQuery::with_response(ResponseHeader::LegacyInfo, copy_bytes(legacy)), *addr));
                    }
                    if let Some(new) = new {
                        out.push((SourceQuery::with_response(ResponseHeader::NewInfo, copy_bytes(new)), *addr));
                    }
                    assert(sent(out@) =~= cached_info(old(self).cache(), addr@));
                    out
                }
            },
            RequestHeader::Players => self.process_players_request(data, addr, now, random),
        }
    }

    /// Handles the query `client.0` from `client.1` arriving at time `now`,
    /// with `random` as the draw for a new challenge number, and gives back
    /// the packets to send.
    pub fn process_query_with(&mut self, client: &(SourceQuery, SocketAddrOrdered), now: u64, random: i32) -> (out: Vec<Outgoing>)
        requires
            old(self).wf(),
        ensures
            final(self).wf(),
            shape(*final(self)),
            step(*old(self), *final(self), client.0.header, client.0.data@, client.1@, now, random, sent(out@)),
    {
        let query = &client.0;
        let addr = &client.1;
        let out = if !fnv_set_contains(&self.banned_clients, &addr.key()) {
            match query.header {
                Header::Response(header) => self.process_response(&header, &query.data, addr, now),
                Header::Request(header) => {
                    self.clear_cache_if_needed(now);
                    self.process_request(&header, &query.data, addr, now, random)
                },
            }
        } else {
            Cacher::ignore_request()
        };
        proof {
            Cacher::lemma_wf_shape(*self);
        }
        out
    }

    /// Handles the query `client.0` from `client.1` arriving at time `now`
    /// and gives back the packets to send. A new challenge number is drawn
    /// at random; the outcome is that of [`Cacher::process_query_with`] for
    /// some draw.
    pub fn process_query(&mut self, client: &(SourceQuery, SocketAddrOrdered), now: u64) -> (out: Vec<Outgoing>)
        requires
            old(self).wf(),
        ensures
            final(self).wf(),
            shape(*final(self)),
            exists|random: i32| step(*old(self), *final(self), client.0.header, client.0.data@, client.1@, now, random, sent(out@)),
    {
        let random = random_i32();
        let out = self.process_query_with(client, now, random);
        assert(step(*old(self), *self, client.0.header, client.0.data@, client.1@, now, random, sent(out@)));
        out
    }
}

/// The kinds of socket errors that the proxy tells apart when reading.
#[derive(PartialEq, Eq, Structural, Clone, Copy, Debug)]
pub enum SocketErrorKind {
    Interrupted,
    ConnectionRefused,
    ConnectionReset,
    ConnectionAborted,
    NotConnected,
    Other,
    BrokenPipe,
    PermissionDenied,
    /// Any other kind.
    Unlisted,
}

/// What to do after an error while reading from the socket.
#[derive(PartialEq, Eq, Structural, Clone, Copy, Debug)]
pub enum RetryDecision {
    /// Read again at once.
    Repeat,
    /// Read again after this many milliseconds.
    WaitRetryMillis(u64),
    /// Give up and pass the error on.
    ForwardError,
}

/// What to do after a socket error of kind `kind`: connection trouble and
/// interruptions are retried at once, a missing permission is passed on,
/// and anything else is retried after a millisecond.
pub fn stream_retry_policy(kind: SocketErrorKind) -> (d: RetryDecision)
    ensures
        d == (match kind {
            SocketErrorKind::PermissionDenied => RetryDecision::ForwardError,
            SocketErrorKind::Unlisted => RetryDecision::WaitRetryMillis(1),
            _ => RetryDecision::Repeat,
        }),
{
    match kind {
        SocketErrorKind::Interrupted
        | SocketErrorKind::ConnectionRefused
        | SocketErrorKind::ConnectionReset
        | SocketErrorKind::ConnectionAborted
        | SocketErrorKind::NotConnected
        | SocketErrorKind::Other
        | SocketErrorKind::BrokenPipe => RetryDecision::Repeat,
        SocketErrorKind::PermissionDenied => RetryDecision::ForwardError,
        SocketErrorKind::Unlisted => RetryDecision::WaitRetryMillis(1),
    }
}

/// What to do after the cacher itself fails: start a fresh cacher a
/// millisecond later.
pub fn run_failure_policy() -> (d: RetryDecision)
    ensures
        d == RetryDecision::WaitRetryMillis(1),
{
    RetryDecision::WaitRetryMillis(1)
}

} // verus!
