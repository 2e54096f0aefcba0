//! Length-prefixed framing of Kvaser USB messages on a byte stream.
//!
//! On the wire each message is preceded by one byte that holds the length of the frame,
//! that byte included.
use vstd::prelude::*;
use bytes::BytesMut;
use crate::message::{KvaserMessage, ParseError, lemma_read_after_encode, lemma_read_from_unique, parse_failure};
use crate::wire::lemma_le_bytes_len;

verus! {

#[verifier::external_type_specification]
#[verifier::external_body]
pub struct ExBytesMut(bytes::BytesMut);

/// The bytes that a `BytesMut` holds, from its read position to its end.
pub uninterp spec fn buf_contents(b: BytesMut) -> Seq<u8>;

/// Trusted: `BytesMut::len` gives the number of bytes held.
#[verifier::external_body]
fn buf_len(b: &BytesMut) -> (n: usize)
    ensures
        n == buf_contents(*b).len(),
{
    b.len()
}

/// Trusted: indexing a `BytesMut` (through its slice) gives the byte at that position.
#[verifier::external_body]
fn buf_byte(b: &BytesMut, i: usize) -> (v: u8)
    requires
        i < buf_contents(*b).len(),
    ensures
        v == buf_contents(*b)[i as int],
{
    b[i]
}

/// Trusted: `BytesMut::reserve` changes the capacity only, not the bytes held. It panics
/// when the new capacity overflows; the bound below keeps the length small enough, though
/// the offset of the read position inside the allocation is not modelled.
#[verifier::external_body]
fn buf_reserve(b: &mut BytesMut, additional: usize)
    requires
        buf_contents(*old(b)).len() + additional <= isize::MAX,
    ensures
        buf_contents(*final(b)) == buf_contents(*old(b)),
{
    b.reserve(additional)
}

/// Trusted: `BytesMut::split_to(at)` returns the first `at` bytes and keeps the rest;
/// it panics when `at` exceeds the length.
#[verifier::external_body]
fn buf_split_to(b: &mut BytesMut, at: usize) -> (front: BytesMut)
    requires
        at <= buf_contents(*old(b)).len(),
    ensures
        buf_contents(front) == buf_contents(*old(b)).subrange(0, at as int),
        buf_contents(*final(b)) == buf_contents(*old(b)).subrange(at as int, buf_contents(*old(b)).len() as int),
{
    b.split_to(at)
}

/// Trusted: `Buf::advance(cnt)` on a `BytesMut` drops its first `cnt` bytes; it panics when
/// `cnt` exceeds the length.
#[verifier::external_body]
fn buf_advance(b: &mut BytesMut, cnt: usize)
    requires
        cnt <= buf_contents(*old(b)).len(),
    ensures
        buf_contents(*final(b)) == buf_contents(*old(b)).subrange(cnt as int, buf_contents(*old(b)).len() as int),
{
    bytes::Buf::advance(b, cnt)
}

/// Trusted: `AsRef<[u8]>` for `BytesMut` gives a slice of the bytes held.
#[verifier::external_body]
fn buf_as_slice(b: &BytesMut) -> (s: &[u8])
    ensures
        s@ == buf_contents(*b),
{
    b.as_ref()
}

/// Trusted: `BufMut::put_u8` appends one byte.
#[verifier::external_body]
fn buf_put_u8(b: &mut BytesMut, v: u8)
    requires
        buf_contents(*old(b)).len() + 1 <= isize::MAX,
    ensures
        buf_contents(*final(b)) == buf_contents(*old(b)).push(v),
{
    bytes::BufMut::put_u8(b, v)
}

/// Trusted: `BufMut::put_slice` appends the bytes of `s`.
#[verifier::external_body]
fn buf_put_slice(b: &mut BytesMut, s: &[u8])
    requires
        buf_contents(*old(b)).len() + s@.len() <= isize::MAX,
    ensures
        buf_contents(*final(b)) == buf_contents(*old(b)) + s@,
{
    bytes::BufMut::put_slice(b, s)
}

/// Encodes and decodes length-prefixed Kvaser USB messages.
pub struct KvaserCodec {}

/// What the length byte of a frame that carries `body` holds: the frame's length, the
/// length byte included, kept to its low eight bits.
pub open spec fn frame_len_byte(body: Seq<u8>) -> u8 {
    ((body.len() + 1) % 256) as u8
}

/// The frame that carries the message `m`: its length byte, then its encoding.
pub open spec fn frame(m: KvaserMessage) -> Seq<u8> {
    seq![frame_len_byte(m.spec_encode())] + m.spec_encode()
}

/// Whether `src` starts with a complete frame: two bytes at least, and as many as its first
/// byte says.
pub open spec fn holds_frame(src: Seq<u8>) -> bool {
    src.len() >= 2 && src[0] <= src.len()
}

impl KvaserCodec {
    /// Takes the first complete frame off `src` and decodes the message it carries.
    ///
    /// Leaves `src` unchanged and returns `Ok(None)` while the frame is incomplete.
    /// A frame whose length byte is zero cannot be taken off; such input is excluded.
    pub fn decode(&mut self, src: &mut BytesMut) -> (r: Result<Option<KvaserMessage>, ParseError>)
        requires
            buf_contents(*old(src)).len() >= 2 ==> buf_contents(*old(src))[0] != 0,
        ensures
            ({
                let s = buf_contents(*old(src));
                if !holds_frame(s) {
                    &&& r == Ok::<Option<KvaserMessage>, ParseError>(None)
                    &&& buf_contents(*final(src)) == s
                } else {
                    let body = s.subrange(1, s[0] as int);
                    &&& buf_contents(*final(src)) == s.subrange(s[0] as int, s.len() as int)
                    &&& match r {
                        Ok(Some(m)) => parse_failure(body) is None && m.read_from(body),
                        Ok(None) => false,
                        Err(e) => parse_failure(body) == Some(e),
                    }
                }
            }),
    {
        // Check there is a header (length and command bytes).
        let n = buf_len(src);
        if n < 2 {
            buf_reserve(src, 2);
            return Ok(None);
        }
        // Has enough data been received yet?
        let len = buf_byte(src, 0) as usize;
        if len > n {
            buf_reserve(src, len - n);
            return Ok(None);
        }
        let mut data = buf_split_to(src, len);
        buf_advance(&mut data, 1);
        let ghost s = buf_contents(*old(src));
        assert(buf_contents(data) =~= s.subrange(1, s[0] as int));
        match KvaserMessage::from_bytes(buf_as_slice(&data)) {
            Ok(m) => Ok(Some(m)),
            Err(e) => Err(e),
        }
    }

    /// Appends the frame that carries `item` to `dst`.
    pub fn encode(&mut self, item: KvaserMessage, dst: &mut BytesMut)
        requires
            item.encodable(),
            buf_contents(*old(dst)).len() + item.spec_encode().len() + 1 <= isize::MAX,
        ensures
            buf_contents(*final(dst)) == buf_contents(*old(dst)) + frame(item),
    {
        let data = item.to_bytes();
        let n = data.len();
        buf_reserve(dst, n + 1);
        buf_put_u8(dst, ((n + 1) % 256) as u8);
        buf_put_slice(dst, data.as_slice());
        assert(buf_contents(*dst) =~= buf_contents(*old(dst)) + frame(item));
    }
}

/// Every encoded message holds at least its command byte.
pub proof fn lemma_encoding_not_empty(m: KvaserMessage)
    ensures
        m.spec_encode().len() >= 1,
{
    broadcast use lemma_le_bytes_len;

}

/// A frame written by `encode` and followed by any further bytes is taken off whole by
/// `decode`, which gives back the message and leaves the further bytes: the body of the
/// frame reads as `m`, and any message read from it is the same as `m`.
///
/// This holds of every message that encodes without loss into a frame whose length fits
/// its length byte.
pub proof fn lemma_decode_after_encode(m: KvaserMessage, rest: Seq<u8>)
    requires
        m.encodable(),
        m.encoding_is_lossless(),
        m.spec_encode().len() + 1 <= 255,
    ensures
        ({
            let s = frame(m) + rest;
            &&& holds_frame(s)
            &&& s[0] != 0
            &&& s.subrange(1, s[0] as int) == m.spec_encode()
            &&& s.subrange(s[0] as int, s.len() as int) == rest
            &&& parse_failure(m.spec_encode()) is None
            &&& m.read_from(m.spec_encode())
            &&& forall|m2: KvaserMessage| #[trigger] m2.read_from(m.spec_encode()) ==> m2.same_as(m)
        }),
{
    lemma_encoding_not_empty(m);
    lemma_read_after_encode(m);
    let e = m.spec_encode();
    let s = frame(m) + rest;
    assert(s[0] as int == e.len() + 1);
    assert(s.subrange(1, s[0] as int) =~= e);
    assert(s.subrange(s[0] as int, s.len() as int) =~= rest);
    assert forall|m2: KvaserMessage| #[trigger] m2.read_from(e) implies m2.same_as(m) by {
        lemma_read_from_unique(m2, m, e);
    }
}

/// The number of bytes `b` holds.
pub fn buffered_len(b: &BytesMut) -> (n: usize)
    ensures
        n == buf_contents(*b).len(),
{
    buf_len(b)
}

impl KvaserCodec {
    /// Whether `decode` may be called on `src`: a frame that is present does not have a
    /// zero length byte.
    pub fn can_decode(src: &BytesMut) -> (ok: bool)
        ensures
            ok == (buf_contents(*src).len() >= 2 ==> buf_contents(*src)[0] != 0),
    {
        let n = buf_len(src);
        n < 2 || buf_byte(src, 0) != 0
    }

    /// Whether `encode` may be called with `item` and `dst`: the message can be encoded and
    /// the buffer stays within the size an allocation can have.
    pub fn can_encode(item: &KvaserMessage, dst: &BytesMut) -> (ok: bool)
        ensures
            ok == (item.encodable() && buf_contents(*dst).len() + item.spec_encode().len() + 1 <= isize::MAX),
    {
        if !item.is_encodable() {
            return false;
        }
        let n = item.to_bytes().len();
        let held = buf_len(dst);
        n < isize::MAX as usize && held <= isize::MAX as usize - n - 1
    }
}

/// A frame is one length byte followed by the encoded message; the length byte counts the
/// whole frame, itself included, modulo 256.
pub proof fn lemma_frame_layout(m: KvaserMessage)
    ensures
        frame(m).len() == m.spec_encode().len() + 1,
        frame(m)[0] as int == (m.spec_encode().len() + 1) % 256,
        frame(m).subrange(1, frame(m).len() as int) == m.spec_encode(),
{
    assert(frame(m).subrange(1, frame(m).len() as int) =~= m.spec_encode());
}

} // verus!
