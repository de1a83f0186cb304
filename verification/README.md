# source_query_cacher

A caching proxy for the Source engine query protocol (the `A2S_INFO` and
`A2S_PLAYER` queries of SRCDS/HLDS game servers). It answers info and
players queries from a cache that it refreshes from the game server, hands
out and checks challenge numbers itself, and bans clients that send
responses or unknown challenge numbers (unless told to ignore unknown
ones), so that such traffic never reaches the server. Challenge numbers
expire after a configurable time, and clients waiting for the server's
answer are dropped after a configurable time or when a queue grows too
long.

Layout:

- `src/` is the verified library (Verus):
  - `source_query.rs`: packet headers and the codec of query packets;
  - `frame.rs`: framing of datagrams into queries;
  - `util.rs`, `addr.rs`: big-endian numbers, nested results, socket
    addresses ordered by IP address and port;
  - `cacher.rs`: the decisions of the cacher for each query, stated as the
    relation `step` between the state before and after and the packets sent;
  - `laws.rs`: properties of the cacher over several queries and over
    whole runs;
  - `store.rs`: the trusted contracts of the FNV hash sets and maps, the
    LRU cache of challenge numbers and the random number generator;
  - `cached_query.rs`: a codec for cached responses;
  - `pair.rs`: the format of a proxy/server pair on the command line.
- `app/` is the program: command line, tokio runtime, UDP socket, clock.
- `tests/` runs the library on concrete packets and query sequences.
