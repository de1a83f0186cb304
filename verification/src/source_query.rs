use crate::util::{is_single_packet, BytesExt};
use vstd::prelude::*;

verus! {

/// Headers of the packets that a game server answers with.
#[derive(PartialEq, Eq, Structural, Clone, Copy, Debug, Hash)]
pub enum ResponseHeader {
    LegacyInfo,
    NewInfo,
    Players,
    PlayersChallenge,
}

/// Headers of the packets that a client asks with.
#[derive(PartialEq, Eq, Structural, Clone, Copy, Debug, Hash)]
pub enum RequestHeader {
    Info,
    /// May have to carry a challenge number.
    Players,
}

/// The header byte of a query packet: either a response or a request.
#[derive(PartialEq, Eq, Structural, Clone, Copy, Debug, Hash)]
pub enum Header {
    Response(ResponseHeader),
    Request(RequestHeader),
}

/// The byte that stands for a response header on the wire.
pub open spec fn response_byte(h: ResponseHeader) -> u8 {
    match h {
        ResponseHeader::LegacyInfo => 0x6d,  // 'm'
        ResponseHeader::NewInfo => 0x49,  // 'I'
        ResponseHeader::Players => 0x44,  // 'D'
        ResponseHeader::PlayersChallenge => 0x41,  // 'A'
    }
}

/// The byte that stands for a request header on the wire.
pub open spec fn request_byte(h: RequestHeader) -> u8 {
    match h {
        RequestHeader::Info => 0x54,  // 'T'
        RequestHeader::Players => 0x55,  // 'U'
    }
}

/// The byte that stands for a header on the wire.
pub open spec fn header_byte(h: Header) -> u8 {
    match h {
        Header::Response(r) => response_byte(r),
        Header::Request(r) => request_byte(r),
    }
}

/// The header that a byte stands for, if any.
pub open spec fn header_of_byte(b: u8) -> Option<Header> {
    if b == 0x6d {
        Some(Header::Response(ResponseHeader::LegacyInfo))
    } else if b == 0x49 {
        Some(Header::Response(ResponseHeader::NewInfo))
    } else if b == 0x44 {
        Some(Header::Response(ResponseHeader::Players))
    } else if b == 0x41 {
        Some(Header::Response(ResponseHeader::PlayersChallenge))
    } else if b == 0x54 {
        Some(Header::Request(RequestHeader::Info))
    } else if b == 0x55 {
        Some(Header::Request(RequestHeader::Players))
    } else {
        None
    }
}

impl ResponseHeader {
    /// The response header that `n` stands for, if any.
    pub fn from_u8(n: u8) -> (r: Option<ResponseHeader>)
        ensures
            r == (match header_of_byte(n) {
                Some(Header::Response(h)) => Some(h),
                _ => None,
            }),
    {
        if n == 0x6d {
            Some(ResponseHeader::LegacyInfo)
        } else if n == 0x49 {
            Some(ResponseHeader::NewInfo)
        } else if n == 0x44 {
            Some(ResponseHeader::Players)
        } else if n == 0x41 {
            Some(ResponseHeader::PlayersChallenge)
        } else {
            None
        }
    }

    /// The byte of this header on the wire.
    pub fn to_u8(&self) -> (b: u8)
        ensures
            b == response_byte(*self),
    {
        match self {
            ResponseHeader::LegacyInfo => 0x6d,
            ResponseHeader::NewInfo => 0x49,
            ResponseHeader::Players => 0x44,
            ResponseHeader::PlayersChallenge => 0x41,
        }
    }
}

impl RequestHeader {
    /// The request header that `n` stands for, if any.
    pub fn from_u8(n: u8) -> (r: Option<RequestHeader>)
        ensures
            r == (match header_of_byte(n) {
                Some(Header::Request(h)) => Some(h),
                _ => None,
            }),
    {
        if n == 0x54 {
            Some(RequestHeader::Info)
        } else if n == 0x55 {
            Some(RequestHeader::Players)
        } else {
            None
        }
    }

    /// The byte of this header on the wire.
    pub fn to_u8(&self) -> (b: u8)
        ensures
            b == request_byte(*self),
    {
        match self {
            RequestHeader::Info => 0x54,
            RequestHeader::Players => 0x55,
        }
    }
}


impl Header {
    /// The header that the byte `n` stands for, if any.
    pub fn from_u8(n: u8) -> (r: Option<Header>)
        ensures
            r == header_of_byte(n),
    {
        if let Some(a) = ResponseHeader::from_u8(n) {
            return Some(Header::Response(a));
        }
        if let Some(a) = RequestHeader::from_u8(n) {
            return Some(Header::Request(a));
        }
        None
    }

    /// The header that the number `n` stands for, if any.
    pub fn from_u64(n: u64) -> (r: Option<Header>)
        ensures
            r == (if n < 0x100 {
                header_of_byte(n as u8)
            } else {
                None
            }),
    {
        if n < 0x100 {
            Header::from_u8(n as u8)
        } else {
            None
        }
    }

    /// The header that the number `n` stands for, if any.
    pub fn from_i64(n: i64) -> (r: Option<Header>)
        ensures
            r == (if 0 <= n < 0x100 {
                header_of_byte(n as u8)
            } else {
                None
            }),
    {
        if n < 0 {
            None
        } else {
            Header::from_u64(n as u64)
        }
    }

    /// The byte of this header on the wire.
    pub fn to_u8(&self) -> (b: u8)
        ensures
            b == header_byte(*self),
    {
        match self {
            Header::Response(r) => r.to_u8(),
            Header::Request(r) => r.to_u8(),
        }
    }
}

impl From<Header> for u8 {
    fn from(h: Header) -> (b: u8) {
        h.to_u8()
    }
}

impl vstd::std_specs::convert::FromSpecImpl<Header> for u8 {
    open spec fn obeys_from_spec() -> bool {
        true
    }

    open spec fn from_spec(h: Header) -> u8 {
        header_byte(h)
    }
}

/// Every header has a byte, and that byte stands for the header again.
pub proof fn lemma_header_byte_roundtrip(h: Header)
    ensures
        header_of_byte(header_byte(h)) == Some(h),
{
}

/// Every byte that stands for a header is the byte of that header.
pub proof fn lemma_byte_header_roundtrip(b: u8)
    ensures
        header_of_byte(b) matches Some(h) ==> header_byte(h) == b,
{
}

/// A query packet: a header and the payload that follows it.
#[derive(PartialEq, Eq, Clone, Debug)]
pub struct SourceQuery {
    pub header: Header,
    pub data: Vec<u8>,
}

impl SourceQuery {
    /// A query with the given header and payload.
    pub fn with(header: Header, data: Vec<u8>) -> (q: Self)
        ensures
            q.header == header,
            q.data@ == data@,
    {
        SourceQuery { header, data }
    }

    /// A request query with the given header and payload.
    pub fn with_request(header: RequestHeader, data: Vec<u8>) -> (q: Self)
        ensures
            q.header == Header::Request(header),
            q.data@ == data@,
    {
        SourceQuery { header: Header::Request(header), data }
    }

    /// A response query with the given header and payload.
    pub fn with_response(header: ResponseHeader, data: Vec<u8>) -> (q: Self)
        ensures
            q.header == Header::Response(header),
            q.data@ == data@,
    {
        SourceQuery { header: Header::Response(header), data }
    }
}

/// Why a packet could not be decoded or encoded.
#[derive(PartialEq, Eq, Structural, Clone, Copy, Debug)]
pub enum CodecError {
    /// The header byte of a whole packet stands for no known header.
    InvalidHeader(u8),
    /// There is no query to encode.
    NothingToSend,
}

/// What decoding a datagram `s` gives: nothing for a split or short packet,
/// an error for an unknown header byte, else the header and the payload
/// after the five leading bytes.
pub open spec fn decoded(s: Seq<u8>) -> Result<Option<(Header, Seq<u8>)>, CodecError> {
    if !is_single_packet(s) {
        Ok(None)
    } else {
        match header_of_byte(s[4]) {
            None => Err(CodecError::InvalidHeader(s[4])),
            Some(h) => Ok(Some((h, s.skip(5)))),
        }
    }
}

/// The bytes of a packet with header `h` and payload `data`.
pub open spec fn encoded(h: Header, data: Seq<u8>) -> Seq<u8> {
    seq![0xFFu8, 0xFFu8, 0xFFu8, 0xFFu8, header_byte(h)] + data
}

/// Whether the decoder's result `r` is what `decoded` says of `s`.
pub open spec fn decode_matches(
    r: Result<Option<SourceQuery>, CodecError>,
    d: Result<Option<(Header, Seq<u8>)>, CodecError>,
) -> bool {
    match (r, d) {
        (Ok(None), Ok(None)) => true,
        (Ok(Some(q)), Ok(Some((h, data)))) => q.header == h && q.data@ == data,
        (Err(e1), Err(e2)) => e1 == e2,
        _ => false,
    }
}

/// Decoder and encoder of query packets.
#[derive(Default)]
pub struct SourceQueryCodec;

impl SourceQueryCodec {
    /// A new codec.
    pub fn new() -> (c: SourceQueryCodec)
        ensures
            c == SourceQueryCodec,
    {
        SourceQueryCodec
    }

    /// Decodes a datagram. On success the payload is taken from `buf`,
    /// which keeps its five leading bytes; otherwise `buf` is unchanged.
    pub fn decode(&mut self, buf: &mut Vec<u8>) -> (r: Result<Option<SourceQuery>, CodecError>)
        ensures
            decode_matches(r, decoded(old(buf)@)),
            final(buf)@ == (if r matches Ok(Some(_)) {
                old(buf)@.take(5)
            } else {
                old(buf)@
            }),
    {
        if !buf.is_not_split_packet() {
            return Ok(None);
        }
        let header = match Header::from_u8(buf[4]) {
            Some(h) => h,
            None => {
                return Err(CodecError::InvalidHeader(buf[4]));
            },
        };
        let data = buf.split_off(5);
        Ok(Some(SourceQuery { header, data }))
    }

    /// Appends the bytes of `item` to `dst`. Encoding never fails.
    pub fn encode(&mut self, item: SourceQuery, dst: &mut Vec<u8>) -> (r: Result<(), CodecError>)
        ensures
            r is Ok,
            final(dst)@ == old(dst)@ + encoded(item.header, item.data@),
    {
        dst.push(0xFF);
        dst.push(0xFF);
        dst.push(0xFF);
        dst.push(0xFF);
        dst.push(item.header.to_u8());
        let ghost before = dst@;
        let data = item.data;
        let n = data.len();
        let mut i: usize = 0;
        while i < n
            invariant
                n == data@.len(),
                i <= n,
                dst@ == before + data@.take(i as int),
            decreases n - i,
        {
            dst.push(data[i]);
            i = i + 1;
            assert(data@.take(i as int) =~= data@.take(i - 1) + seq![data@[i - 1]]);
        }
        assert(data@.take(n as int) =~= data@);
        assert(dst@ =~= old(dst)@ + encoded(item.header, item.data@));
        Ok(())
    }
}

/// Decoding the bytes of a packet gives back its header and payload.
pub proof fn lemma_decode_encoded(h: Header, data: Seq<u8>)
    ensures
        decoded(encoded(h, data)) == Ok::<Option<(Header, Seq<u8>)>, CodecError>(
            Some((h, data)),
        ),
{
    let s = encoded(h, data);
    assert(s[4] == header_byte(h));
    assert(s.skip(5) =~= data);
}

/// A whole packet that decodes is the encoding of what it decodes to.
pub proof fn lemma_encode_decoded(s: Seq<u8>)
    ensures
        decoded(s) matches Ok(Some((h, data))) ==> encoded(h, data) == s,
{
    if let Ok(Some((h, data))) = decoded(s) {
        assert(encoded(h, data) =~= s);
    }
}

} // verus!
