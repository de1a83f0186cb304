//! Utility extensions: mapping nested results, reading and writing the
//! big-endian 32-bit numbers that the protocol carries, and sum types.
use bytes::BigEndian;
use bytes::ByteOrder;
use vstd::prelude::*;

pub use crate::addr::SocketAddrOrdered;

verus! {

/// Maps the value inside an `Ok(Some(..))`, keeping `Ok(None)` and errors.
pub trait ResultExt<T, E>: Sized {
    /// The nested result that `self` stands for.
    spec fn nested(&self) -> Result<Option<T>, E>;

    /// Maps a `Result<Option<T>, E>` to a `Result<Option<U>, E>` by `f`.
    fn map_option<U, F: FnOnce(T) -> U>(self, f: F) -> (r: Result<Option<U>, E>)
        requires
            self.nested() matches Ok(Some(t)) ==> call_requires(f, (t,)),
        ensures
            match self.nested() {
                Ok(Some(t)) => r matches Ok(Some(u)) && call_ensures(f, (t,), u),
                Ok(None) => r matches Ok(None),
                Err(e) => r == Err::<Option<U>, E>(e),
            },
    ;

    /// Maps a `Result<Option<T>, E>` to a `Result<Option<U>, E>` by `f`;
    /// where the option is `None`, the result is `Ok(Some(default))`.
    fn map_option_or_some<U, F: FnOnce(T) -> U>(self, default: U, f: F) -> (r: Result<
        Option<U>,
        E,
    >)
        requires
            self.nested() matches Ok(Some(t)) ==> call_requires(f, (t,)),
        ensures
            match self.nested() {
                Ok(Some(t)) => r matches Ok(Some(u)) && call_ensures(f, (t,), u),
                Ok(None) => r == Ok::<Option<U>, E>(Some(default)),
                Err(e) => r == Err::<Option<U>, E>(e),
            },
    ;
}

impl<T, E> ResultExt<T, E> for Result<Option<T>, E> {
    open spec fn nested(&self) -> Result<Option<T>, E> {
        *self
    }

    fn map_option<U, F: FnOnce(T) -> U>(self, f: F) -> (r: Result<Option<U>, E>) {
        match self {
            Ok(Some(t)) => Ok(Some(f(t))),
            Ok(None) => Ok(None),
            Err(e) => Err(e),
        }
    }

    fn map_option_or_some<U, F: FnOnce(T) -> U>(self, default: U, f: F) -> (r: Result<
        Option<U>,
        E,
    >) {
        match self {
            Ok(Some(t)) => Ok(Some(f(t))),
            Ok(None) => Ok(Some(default)),
            Err(e) => Err(e),
        }
    }
}

/// Whether `s` holds a whole datagram of the protocol: four `0xFF` bytes
/// followed by at least a header byte. Split packets start otherwise.
pub open spec fn is_single_packet(s: Seq<u8>) -> bool {
    &&& s.len() >= 5
    &&& s[0] == 0xFF
    &&& s[1] == 0xFF
    &&& s[2] == 0xFF
    &&& s[3] == 0xFF
}

/// The unsigned number that the first four bytes of `s` spell in big-endian order.
pub open spec fn be_u32_value(s: Seq<u8>) -> int {
    s[0] * 0x100_0000 + s[1] * 0x1_0000 + s[2] * 0x100 + s[3]
}

/// The two's-complement number that the first four bytes of `s` spell in
/// big-endian order.
pub open spec fn be_i32_value(s: Seq<u8>) -> int {
    let u = be_u32_value(s);
    if u < 0x8000_0000 {
        u
    } else {
        u - 0x1_0000_0000
    }
}

/// The four bytes of `n` in two's complement, most significant first.
pub open spec fn i32_be_bytes(n: i32) -> Seq<u8> {
    let u: int = if n < 0 {
        n + 0x1_0000_0000
    } else {
        n as int
    };
    seq![
        (u / 0x100_0000) as u8,
        ((u / 0x1_0000) % 0x100) as u8,
        ((u / 0x100) % 0x100) as u8,
        (u % 0x100) as u8,
    ]
}

/// The number that a payload of exactly four bytes carries, if it has that length.
pub open spec fn i32_of_payload(s: Seq<u8>) -> Option<i32> {
    if s.len() == 4 {
        Some(be_i32_value(s) as i32)
    } else {
        None
    }
}

/// The bytes of a number spell that number back.
pub proof fn lemma_i32_be_bytes_value(n: i32)
    ensures
        i32_be_bytes(n).len() == 4,
        be_i32_value(i32_be_bytes(n)) == n,
{
    let u: int = if n < 0 {
        n + 0x1_0000_0000
    } else {
        n as int
    };
    assert(0 <= u < 0x1_0000_0000);
    let b0 = u / 0x100_0000;
    let b1 = (u / 0x1_0000) % 0x100;
    let b2 = (u / 0x100) % 0x100;
    let b3 = u % 0x100;
    assert(b0 * 0x100_0000 + b1 * 0x1_0000 + b2 * 0x100 + b3 == u && 0 <= b0 < 0x100 && 0 <= b1
        < 0x100 && 0 <= b2 < 0x100 && 0 <= b3 < 0x100) by (nonlinear_arith)
        requires
            0 <= u < 0x1_0000_0000,
            b0 == u / 0x100_0000,
            b1 == (u / 0x1_0000) % 0x100,
            b2 == (u / 0x100) % 0x100,
            b3 == u % 0x100,
    ;
    let s = i32_be_bytes(n);
    assert(s[0] == b0 && s[1] == b1 && s[2] == b2 && s[3] == b3);
}

/// Four bytes are the bytes of the number that they spell.
pub proof fn lemma_be_value_bytes(s: Seq<u8>)
    requires
        s.len() == 4,
    ensures
        i32_min() <= be_i32_value(s) <= i32_max(),
        i32_be_bytes(be_i32_value(s) as i32) == s,
{
    let u = be_u32_value(s);
    let b0 = s[0] as int;
    let b1 = s[1] as int;
    let b2 = s[2] as int;
    let b3 = s[3] as int;
    assert(0 <= u < 0x1_0000_0000 && u / 0x100_0000 == b0 && (u / 0x1_0000) % 0x100 == b1 && (u
        / 0x100) % 0x100 == b2 && u % 0x100 == b3) by (nonlinear_arith)
        requires
            0 <= b0 < 0x100,
            0 <= b1 < 0x100,
            0 <= b2 < 0x100,
            0 <= b3 < 0x100,
            u == b0 * 0x100_0000 + b1 * 0x1_0000 + b2 * 0x100 + b3,
    ;
    let n = be_i32_value(s) as i32;
    assert(i32_be_bytes(n) =~= s);
}

/// Reading back the payload of a number gives the number.
pub proof fn lemma_i32_payload_roundtrip(n: i32)
    ensures
        i32_of_payload(i32_be_bytes(n)) == Some(n),
{
    lemma_i32_be_bytes_value(n);
}

/// A payload that carries a number is the payload of that number.
pub proof fn lemma_payload_i32_roundtrip(s: Seq<u8>)
    ensures
        i32_of_payload(s) matches Some(n) ==> i32_be_bytes(n) == s,
{
    if s.len() == 4 {
        lemma_be_value_bytes(s);
    }
}

/// The least value of an `i32`.
pub open spec fn i32_min() -> int {
    -0x8000_0000
}

/// The greatest value of an `i32`.
pub open spec fn i32_max() -> int {
    0x7FFF_FFFF
}

/// Reads the big-endian `i32` at the start of `buf`.
///
/// Calls `BigEndian::read_i32` of the `bytes` crate (re-exported from
/// `byteorder`), which reads the first four bytes of the slice most
/// significant first and panics on fewer than four bytes. The contract
/// states exactly that value.
#[verifier::external_body]
fn read_i32_be(buf: &[u8]) -> (n: i32)
    requires
        buf@.len() >= 4,
    ensures
        n == be_i32_value(buf@),
{
    BigEndian::read_i32(buf)
}

/// Writes `n` in big-endian order into the four bytes of `buf`.
///
/// Calls `BigEndian::write_i32` of the `bytes` crate (re-exported from
/// `byteorder`), which writes the two's-complement bytes of `n`, most
/// significant first, into the first four bytes of the slice.
#[verifier::external_body]
fn write_i32_be(buf: &mut [u8; 4], n: i32)
    ensures
        final(buf)@ == i32_be_bytes(n),
{
    BigEndian::write_i32(buf, n)
}

/// Byte-buffer helpers used by the protocol.
pub trait BytesExt: Sized {
    /// The bytes that the buffer holds.
    spec fn byte_seq(&self) -> Seq<u8>;

    /// Whether the buffer holds a whole (not split) packet: four `0xFF`
    /// bytes and at least a header byte.
    fn is_not_split_packet(&self) -> (r: bool)
        ensures
            r == is_single_packet(self.byte_seq()),
    ;

    /// The big-endian `i32` that a buffer of exactly four bytes holds.
    fn as_i32(&self) -> (r: Option<i32>)
        ensures
            r == i32_of_payload(self.byte_seq()),
    ;

    /// A buffer of the four big-endian bytes of `i`.
    fn from_i32(i: i32) -> (r: Self)
        ensures
            r.byte_seq() == i32_be_bytes(i),
    ;
}

impl BytesExt for Vec<u8> {
    open spec fn byte_seq(&self) -> Seq<u8> {
        self@
    }

    fn is_not_split_packet(&self) -> (r: bool) {
        self.len() >= 5 && self[0] == 0xFF && self[1] == 0xFF && self[2] == 0xFF && self[3] == 0xFF
    }

    fn as_i32(&self) -> (r: Option<i32>) {
        if self.len() != 4 {
            None
        } else {
            let n = read_i32_be(self.as_slice());
            proof {
                lemma_be_value_bytes(self@);
            }
            Some(n)
        }
    }

    fn from_i32(i: i32) -> (r: Self) {
        let mut arr: [u8; 4] = [0u8; 4];
        write_i32_be(&mut arr, i);
        let mut buf: Vec<u8> = Vec::with_capacity(4);
        buf.push(arr[0]);
        buf.push(arr[1]);
        buf.push(arr[2]);
        buf.push(arr[3]);
        assert(buf@ =~= arr@);
        buf
    }
}

/// One of three alternatives.
pub enum Tripple<A, B, C> {
    A(A),
    B(B),
    C(C),
}

/// One of four alternatives.
pub enum Quadro<A, B, C, D> {
    A(A),
    B(B),
    C(C),
    D(D),
}

} // verus!
