//! Framing of datagrams on the proxy's socket: every datagram becomes a
//! frame, whole packets become queries and anything else becomes nothing.
use crate::source_query::{decode_matches, decoded, encoded, CodecError, SourceQuery, SourceQueryCodec};
use crate::util::ResultExt;
use vstd::prelude::*;

verus! {

/// A datagram as the proxy sees it: a query, or nothing to act on.
#[derive(Debug)]
pub enum Frame {
    SourceQuery(SourceQuery),
    Nothing,
}

/// Decoder and encoder of frames.
#[derive(Debug, Default)]
pub struct FrameCodec;

/// Whether decoding a datagram `s` into a frame gave `r`: a split or short
/// packet gives `Frame::Nothing`, an unknown header an error, and a whole
/// packet its query.
pub open spec fn frame_decode_matches(r: Result<Option<Frame>, CodecError>, s: Seq<u8>) -> bool {
    match (r, decoded(s)) {
        (Ok(Some(Frame::Nothing)), Ok(None)) => true,
        (Ok(Some(Frame::SourceQuery(q))), Ok(Some((h, data)))) => q.header == h && q.data@ == data,
        (Err(e1), Err(e2)) => e1 == e2,
        _ => false,
    }
}

impl Frame {
    /// The query that the frame holds, if any.
    pub fn into_query(self) -> (q: Option<SourceQuery>)
        ensures
            q == (match self {
                Frame::SourceQuery(s) => Some(s),
                Frame::Nothing => None,
            }),
    {
        match self {
            Frame::SourceQuery(s) => Some(s),
            Frame::Nothing => None,
        }
    }
}

impl FrameCodec {
    /// Decodes a datagram into a frame; a datagram that holds no whole
    /// packet gives `Frame::Nothing` rather than waiting for more bytes.
    pub fn decode(&mut self, buf: &mut Vec<u8>) -> (r: Result<Option<Frame>, CodecError>)
        ensures
            frame_decode_matches(r, old(buf)@),
            r is Ok ==> r matches Ok(Some(_)),
            final(buf)@ == (if r matches Ok(Some(Frame::SourceQuery(_))) {
                old(buf)@.take(5)
            } else {
                old(buf)@
            }),
            r is Err ==> final(buf)@ == old(buf)@,
    {
        let mut codec = SourceQueryCodec::new();
        let d = codec.decode(buf);
        let f = |q: SourceQuery| -> (fr: Frame)
            ensures
                fr == Frame::SourceQuery(q),
            { Frame::SourceQuery(q) };
        let r = d.map_option_or_some(Frame::Nothing, f);
        proof {
            assert(decode_matches(d, decoded(old(buf)@)));
        }
        r
    }

    /// Encodes a frame; there is nothing to send for `Frame::Nothing`.
    pub fn encode(&mut self, item: Frame, dst: &mut Vec<u8>) -> (r: Result<(), CodecError>)
        ensures
            match item {
                Frame::SourceQuery(q) => {
                    &&& r is Ok
                    &&& final(dst)@ == old(dst)@ + encoded(q.header, q.data@)
                },
                Frame::Nothing => {
                    &&& r == Err::<(), CodecError>(CodecError::NothingToSend)
                    &&& final(dst)@ == old(dst)@
                },
            },
    {
        match item {
            Frame::SourceQuery(c) => SourceQueryCodec::new().encode(c, dst),
            Frame::Nothing => Err(CodecError::NothingToSend),
        }
    }
}

} // verus!
