//! Fixed-width integers and length-prefixed UTF-8 strings.
//!
//! Every multi-byte integer of the protocol is written in big-endian
//! (network) byte order.

use vstd::prelude::*;
use vstd::utf8::*;

verus! {

/// The four big-endian bytes of `n`.
pub open spec fn be_bytes(n: u32) -> Seq<u8> {
    seq![
        ((n >> 24u32) & 0xffu32) as u8,
        ((n >> 16u32) & 0xffu32) as u8,
        ((n >> 8u32) & 0xffu32) as u8,
        (n & 0xffu32) as u8,
    ]
}

/// The integer whose big-endian bytes are `b0 b1 b2 b3`.
pub open spec fn be_value(b0: u8, b1: u8, b2: u8, b3: u8) -> u32 {
    ((b0 as u32) << 24u32) | ((b1 as u32) << 16u32) | ((b2 as u32) << 8u32) | (b3 as u32)
}

/// The integer stored at `offset` in `buf`.
pub open spec fn be_at(buf: Seq<u8>, offset: int) -> u32 {
    be_value(buf[offset], buf[offset + 1], buf[offset + 2], buf[offset + 3])
}

/// A string on the wire: its UTF-8 length as a `u32`, then its UTF-8 bytes.
pub open spec fn str_bytes(s: Seq<char>) -> Seq<u8> {
    be_bytes(encode_utf8(s).len() as u32) + encode_utf8(s)
}

/// What `unpack_str` finds at `offset`: the string and the offset after it,
/// or `None` when the buffer does not hold a whole valid string there.
pub open spec fn str_at(buf: Seq<u8>, offset: int) -> Option<(Seq<char>, int)> {
    if 0 <= offset && offset + 4 <= buf.len() {
        let end = offset + 4 + be_at(buf, offset);
        if end <= buf.len() && valid_utf8(buf.subrange(offset + 4, end)) {
            Some((decode_utf8(buf.subrange(offset + 4, end)), end))
        } else {
            None
        }
    } else {
        None
    }
}

/// A failure of the codec.
#[derive(Debug, Clone, Copy, PartialEq, Eq, Structural)]
pub enum CodecError {
    /// Fewer than four bytes remain where an integer is expected.
    MalformedHeader,
    /// A string's declared length overruns the buffer, or its bytes are not UTF-8.
    MalformedPayload,
}

/// Appends the bytes of `b` to `v`.
pub fn append_bytes(v: &mut Vec<u8>, b: &[u8])
    ensures
        final(v)@ == old(v)@ + b@,
{
    let mut i: usize = 0;
    while i < b.len()
        invariant
            i <= b@.len(),
            v@ == old(v)@ + b@.subrange(0, i as int),
        decreases b@.len() - i,
    {
        v.push(b[i]);
        i += 1;
        assert(b@.subrange(0, i as int) == b@.subrange(0, i - 1) + seq![b@[i - 1]]);
    }
    assert(b@.subrange(0, b@.len() as int) == b@);
}

/// Whether two byte strings are equal.
pub fn same_bytes(x: &[u8], y: &[u8]) -> (r: bool)
    ensures
        r == (x@ == y@),
{
    if x.len() != y.len() {
        return false;
    }
    let mut i: usize = 0;
    while i < x.len()
        invariant
            x@.len() == y@.len(),
            i <= x@.len(),
            x@.subrange(0, i as int) == y@.subrange(0, i as int),
        decreases x@.len() - i,
    {
        if x[i] != y[i] {
            assert(x@[i as int] != y@[i as int]);
            return false;
        }
        i += 1;
        assert(x@.subrange(0, i as int) == x@.subrange(0, i - 1).push(x@[i - 1]));
        assert(y@.subrange(0, i as int) == y@.subrange(0, i - 1).push(y@[i - 1]));
    }
    assert(x@ == x@.subrange(0, x@.len() as int));
    assert(y@ == y@.subrange(0, y@.len() as int));
    true
}

/// Relies on std's `String::from_utf8`: it accepts exactly the byte strings
/// that are valid UTF-8, and the string it returns has those bytes.
#[verifier::external_body]
fn utf8_string(bytes: &[u8]) -> (r: Option<String>)
    ensures
        r is Some <==> valid_utf8(bytes@),
        r matches Some(s) ==> s@ == decode_utf8(bytes@),
{
    String::from_utf8(bytes.to_vec()).ok()
}

/// Encoding and decoding of the protocol's primitive values.
pub struct ByteUtils;

impl ByteUtils {
    /// The four big-endian bytes of `n`.
    pub fn pack_u32(n: u32) -> (r: Vec<u8>)
        ensures
            r@ == be_bytes(n),
    {
        let mut r: Vec<u8> = Vec::new();
        r.push(((n >> 24u32) & 0xffu32) as u8);
        r.push(((n >> 16u32) & 0xffu32) as u8);
        r.push(((n >> 8u32) & 0xffu32) as u8);
        r.push((n & 0xffu32) as u8);
        assert(r@ == be_bytes(n));
        r
    }

    /// The integer at `offset`, or `MalformedHeader` when fewer than four
    /// bytes remain there.
    pub fn unpack_u32(buf: &[u8], offset: usize) -> (r: Result<u32, CodecError>)
        ensures
            offset + 4 <= buf@.len() ==> r == Ok::<u32, CodecError>(be_at(buf@, offset as int)),
            offset + 4 > buf@.len() ==> r == Err::<u32, CodecError>(CodecError::MalformedHeader),
    {
        if offset > buf.len() || buf.len() - offset < 4 {
            return Err(CodecError::MalformedHeader);
        }
        let b0 = buf[offset] as u32;
        let b1 = buf[offset + 1] as u32;
        let b2 = buf[offset + 2] as u32;
        let b3 = buf[offset + 3] as u32;
        Ok((b0 << 24u32) | (b1 << 16u32) | (b2 << 8u32) | b3)
    }

    /// The UTF-8 length of `s` as four bytes, then the bytes of `s`.
    pub fn pack_str(s: &str) -> (r: Vec<u8>)
        requires
            encode_utf8(s@).len() <= u32::MAX,
        ensures
            r@ == str_bytes(s@),
    {
        let bytes = s.as_bytes();
        let mut r = Self::pack_u32(bytes.len() as u32);
        append_bytes(&mut r, bytes);
        r
    }

    /// The string at `offset` and the offset just past it. Fails with
    /// `MalformedHeader` when its length does not fit before the end, and
    /// with `MalformedPayload` when the declared length overruns the buffer
    /// or the bytes are not UTF-8.
    pub fn unpack_str(buf: &[u8], offset: usize) -> (r: Result<(String, usize), CodecError>)
        ensures
            offset + 4 > buf@.len() ==> r == Err::<(String, usize), CodecError>(
                CodecError::MalformedHeader,
            ),
            offset + 4 <= buf@.len() && str_at(buf@, offset as int) is None ==> r == Err::<
                (String, usize),
                CodecError,
            >(CodecError::MalformedPayload),
            r is Ok <==> str_at(buf@, offset as int) is Some,
            r matches Ok((s, next)) ==> str_at(buf@, offset as int) == Some((s@, next as int)),
    {
        if offset > buf.len() || buf.len() - offset < 4 {
            return Err(CodecError::MalformedHeader);
        }
        let len = match Self::unpack_u32(buf, offset) {
            Ok(n) => n,
            Err(e) => {
                return Err(e);
            },
        };
        let start = offset + 4;
        if len as usize > buf.len() - start {
            return Err(CodecError::MalformedPayload);
        }
        let end = start + len as usize;
        match utf8_string(&buf[start..end]) {
            Some(s) => Ok((s, end)),
            None => Err(CodecError::MalformedPayload),
        }
    }
}

/// The integer codec is lossless: unpacking what `pack_u32` wrote gives `n` back.
pub proof fn lemma_u32_round_trip(n: u32)
    ensures
        be_bytes(n).len() == 4,
        be_at(be_bytes(n), 0) == n,
{
    assert(((((n >> 24u32) & 0xffu32) << 24u32) | (((n >> 16u32) & 0xffu32) << 16u32) | (((n
        >> 8u32) & 0xffu32) << 8u32) | (n & 0xffu32)) == n) by (bit_vector);
    assert((n >> 24u32) & 0xffu32 < 256u32) by (bit_vector);
    assert((n >> 16u32) & 0xffu32 < 256u32) by (bit_vector);
    assert((n >> 8u32) & 0xffu32 < 256u32) by (bit_vector);
    assert(n & 0xffu32 < 256u32) by (bit_vector);
}

/// A string written by `pack_str` into the middle of a buffer is read back
/// whole by `unpack_str`, which then points just past it.
pub proof fn lemma_str_at(pre: Seq<u8>, s: Seq<char>, post: Seq<u8>)
    requires
        encode_utf8(s).len() <= u32::MAX,
    ensures
        str_at(pre + str_bytes(s) + post, pre.len() as int) == Some(
            (s, (pre.len() + 4 + encode_utf8(s).len()) as int),
        ),
{
    let e = encode_utf8(s);
    let buf = pre + str_bytes(s) + post;
    let off = pre.len() as int;
    lemma_u32_round_trip(e.len() as u32);
    assert(be_at(buf, off) == be_at(be_bytes(e.len() as u32), 0));
    assert(buf.subrange(off + 4, off + 4 + e.len()) == e);
    encode_utf8_valid_utf8(s);
    encode_utf8_decode_utf8(s);
}

/// The string codec is lossless: unpacking what `pack_str` wrote gives the
/// string back, and the offset just past it.
pub proof fn lemma_str_round_trip(s: Seq<char>)
    requires
        encode_utf8(s).len() <= u32::MAX,
    ensures
        str_at(str_bytes(s), 0) == Some((s, str_bytes(s).len() as int)),
{
    lemma_str_at(Seq::empty(), s, Seq::empty());
    assert(Seq::<u8>::empty() + str_bytes(s) + Seq::<u8>::empty() == str_bytes(s));
}

} // verus!
