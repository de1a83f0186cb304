//! A codec for cached server responses, whose headers are the three
//! responses that the proxy caches, or an invalid one.
use crate::util::is_single_packet;
use vstd::prelude::*;

verus! {

/// The headers of cached responses.
#[derive(PartialEq, Eq, Structural, Clone, Copy, Debug)]
pub enum Response {
    Legacy,
    New,
    Players,
    /// No response yet; it has no byte that may be sent.
    Invalid,
}

/// The byte that stands for a response header; the invalid header takes
/// the byte after the players header.
pub open spec fn cached_response_byte(r: Response) -> u8 {
    match r {
        Response::Legacy => 0x6d,  // 'm'
        Response::New => 0x49,  // 'I'
        Response::Players => 0x44,  // 'D'
        Response::Invalid => 0x45,  // 'E'
    }
}

/// The response header that a byte stands for, if any.
pub open spec fn cached_response_of_byte(b: u8) -> Option<Response> {
    if b == 0x6d {
        Some(Response::Legacy)
    } else if b == 0x49 {
        Some(Response::New)
    } else if b == 0x44 {
        Some(Response::Players)
    } else if b == 0x45 {
        Some(Response::Invalid)
    } else {
        None
    }
}

impl Response {
    /// The response header that `n` stands for, if any.
    pub fn from_u8(n: u8) -> (r: Option<Response>)
        ensures
            r == cached_response_of_byte(n),
    {
        if n == 0x6d {
            Some(Response::Legacy)
        } else if n == 0x49 {
            Some(Response::New)
        } else if n == 0x44 {
            Some(Response::Players)
        } else if n == 0x45 {
            Some(Response::Invalid)
        } else {
            None
        }
    }

    /// The byte of a header that may be sent.
    pub fn to_u8(&self) -> (b: u8)
        requires
            *self != Response::Invalid,
        ensures
            b == cached_response_byte(*self),
    {
        match self {
            Response::Legacy => 0x6d,
            Response::New => 0x49,
            Response::Players => 0x44,
            Response::Invalid => 0x45,
        }
    }
}

/// Why a cached response could not be decoded.
#[derive(PartialEq, Eq, Structural, Clone, Copy, Debug)]
pub enum CachedQueryError {
    /// The header byte stands for no response.
    InvalidData,
}

/// A cached response: its header and its bytes.
pub struct CachedQuery {
    pub header: Response,
    pub data: Vec<u8>,
}

impl CachedQuery {
    /// An empty cached response with the invalid header.
    pub fn new() -> (q: CachedQuery)
        ensures
            q.header == Response::Invalid,
            q.data@ == Seq::<u8>::empty(),
    {
        CachedQuery { header: Response::Invalid, data: Vec::new() }
    }

    /// Decodes a datagram. A whole packet with a known header gives that
    /// header, with the four leading bytes taken from `buf` as the data;
    /// anything else leaves `buf` as it is.
    pub fn decode(&mut self, buf: &mut Vec<u8>) -> (r: Result<Option<CachedQuery>, CachedQueryError>)
        ensures
            !is_single_packet(old(buf)@) ==> (r matches Ok(None) && final(buf)@ == old(buf)@),
            is_single_packet(old(buf)@) ==> match cached_response_of_byte(old(buf)@[4]) {
                None => r == Err::<Option<CachedQuery>, CachedQueryError>(
                    CachedQueryError::InvalidData,
                ) && final(buf)@ == old(buf)@,
                Some(h) => {
                    &&& r matches Ok(Some(q)) && q.header == h && q.data@ == old(buf)@.take(4)
                    &&& final(buf)@ == old(buf)@.skip(4)
                },
            },
    {
        if buf.len() < 5 || !(buf[0] == 0xFF && buf[1] == 0xFF && buf[2] == 0xFF && buf[3] == 0xFF) {
            return Ok(None);
        }
        let header = match Response::from_u8(buf[4]) {
            Some(h) => h,
            None => {
                return Err(CachedQueryError::InvalidData);
            },
        };
        let mut data = buf.split_off(4);
        std::mem::swap(&mut data, buf);
        Ok(Some(CachedQuery { header, data }))
    }

    /// Appends the bytes of `item` to `dst`: four `0xFF` bytes, the header
    /// byte and the data. An item with the invalid header cannot be sent.
    pub fn encode(&mut self, item: CachedQuery, dst: &mut Vec<u8>) -> (r: Result<(), CachedQueryError>)
        requires
            item.header != Response::Invalid,
        ensures
            r is Ok,
            final(dst)@ == old(dst)@ + seq![0xFFu8, 0xFFu8, 0xFFu8, 0xFFu8, cached_response_byte(item.header)]
                + item.data@,
    {
        dst.push(0xFF);
        dst.push(0xFF);
        dst.push(0xFF);
        dst.push(0xFF);
        dst.push(item.header.to_u8());
        let ghost before = dst@;
        let data = item.data;
        let n = data.len();
        let mut i: usize = 0;
        while i < n
            invariant
                n == data@.len(),
                i <= n,
                dst@ == before + data@.take(i as int),
            decreases n - i,
        {
            dst.push(data[i]);
            i = i + 1;
            assert(data@.take(i as int) =~= data@.take(i - 1) + seq![data@[i - 1]]);
        }
        assert(data@.take(n as int) =~= data@);
        assert(dst@ =~= old(dst)@ + seq![0xFFu8, 0xFFu8, 0xFFu8, 0xFFu8, cached_response_byte(item.header)]
            + item.data@);
        Ok(())
    }
}

} // verus!
