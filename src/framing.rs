//! Length-prefixed framing of the control channel.
//!
//! Every packet on the wire is a `u32` length followed by exactly that many
//! bytes of body; the length does not count itself. The stream may deliver
//! those bytes in pieces of any size: `FrameBuffer` gathers them and hands
//! out whole bodies.

use vstd::prelude::*;
use crate::codec::{ByteUtils, append_bytes, be_at, be_bytes, lemma_u32_round_trip};
use crate::protocol::WireError;

verus! {

/// A body with its length prefix.
pub open spec fn frame_of(body: Seq<u8>) -> Seq<u8> {
    be_bytes(body.len() as u32) + body
}

/// Whether a whole frame starts at the front of `s`.
pub open spec fn has_frame(s: Seq<u8>) -> bool {
    s.len() >= 4 && 4 + be_at(s, 0) <= s.len()
}

/// The whole frames at the front of `s`, in order, and the bytes left after them.
pub open spec fn split_frames(s: Seq<u8>) -> (Seq<Seq<u8>>, Seq<u8>)
    decreases s.len(),
{
    if has_frame(s) {
        let end = 4 + be_at(s, 0);
        let (frames, rest) = split_frames(s.subrange(end, s.len() as int));
        (seq![s.subrange(4, end)] + frames, rest)
    } else {
        (Seq::empty(), s)
    }
}

/// The bytes of all chunks, in order.
pub open spec fn concat_chunks(chunks: Seq<Seq<u8>>) -> Seq<u8>
    decreases chunks.len(),
{
    if chunks.len() == 0 {
        Seq::empty()
    } else {
        concat_chunks(chunks.drop_last()) + chunks.last()
    }
}

/// The bodies handed out, and the bytes still held, when the chunks are
/// pushed into an empty `FrameBuffer` one by one and whole frames are taken
/// after each.
pub open spec fn deliver_chunks(chunks: Seq<Seq<u8>>) -> (Seq<Seq<u8>>, Seq<u8>)
    decreases chunks.len(),
{
    if chunks.len() == 0 {
        (Seq::empty(), Seq::empty())
    } else {
        let (frames, held) = deliver_chunks(chunks.drop_last());
        let (more, rest) = split_frames(held + chunks.last());
        (frames + more, rest)
    }
}

/// The bodies of a list of frames, as sequences.
pub open spec fn bodies_view(v: Seq<Vec<u8>>) -> Seq<Seq<u8>> {
    v.map_values(|b: Vec<u8>| b@)
}

/// Prefixes `body` with its length.
pub fn frame(body: &[u8]) -> (r: Vec<u8>)
    requires
        body@.len() <= u32::MAX,
    ensures
        r@ == frame_of(body@),
{
    let mut r = ByteUtils::pack_u32(body.len() as u32);
    append_bytes(&mut r, body);
    r
}

/// Bytes received on the control channel that do not yet form a whole frame.
pub struct FrameBuffer {
    pending: Vec<u8>,
}

impl View for FrameBuffer {
    type V = Seq<u8>;

    closed spec fn view(&self) -> Seq<u8> {
        self.pending@
    }
}

impl FrameBuffer {
    /// An empty buffer.
    pub fn new() -> (r: FrameBuffer)
        ensures
            r@ == Seq::<u8>::empty(),
    {
        FrameBuffer { pending: Vec::new() }
    }

    /// Adds bytes received from the stream.
    pub fn push(&mut self, bytes: &[u8])
        ensures
            final(self)@ == old(self)@ + bytes@,
    {
        append_bytes(&mut self.pending, bytes);
    }

    /// Takes out the bodies of all whole frames at the front, in order,
    /// without waiting for more bytes.
    pub fn take_frames(&mut self) -> (r: Vec<Vec<u8>>)
        ensures
            (bodies_view(r@), final(self)@) == split_frames(old(self)@),
    {
        let ghost s = self.pending@;
        let mut frames: Vec<Vec<u8>> = Vec::new();
        let mut pos: usize = 0;
        let n = self.pending.len();
        proof {
            assert(s.subrange(0, n as int) == s);
            assert(bodies_view(frames@) + split_frames(s).0 == split_frames(s).0);
        }
        loop
            invariant
                s == self.pending@,
                n == s.len(),
                pos <= n,
                split_frames(s) == (
                    bodies_view(frames@) + split_frames(s.subrange(pos as int, n as int)).0,
                    split_frames(s.subrange(pos as int, n as int)).1,
                ),
            ensures
                !has_frame(s.subrange(pos as int, n as int)),
            decreases n - pos,
        {
            let ghost t = s.subrange(pos as int, n as int);
            if n - pos < 4 {
                break;
            }
            let len = match ByteUtils::unpack_u32(self.pending.as_slice(), pos) {
                Ok(v) => v,
                Err(_) => {
                    break;
                },
            };
            assert(be_at(t, 0) == len);
            if len as usize > n - pos - 4 {
                break;
            }
            let end = pos + 4 + len as usize;
            let mut body: Vec<u8> = Vec::new();
            append_bytes(&mut body, &self.pending.as_slice()[pos + 4..end]);
            let ghost before = frames@;
            frames.push(body);
            proof {
                assert(has_frame(t));
                assert(t.subrange(4, 4 + len) == body@);
                assert(t.subrange(4 + len, t.len() as int) == s.subrange(end as int, n as int));
                assert(bodies_view(frames@) == bodies_view(before).push(body@));
                let (fs, rest) = split_frames(s.subrange(end as int, n as int));
                assert(split_frames(t) == (seq![body@] + fs, rest));
                assert(bodies_view(before) + (seq![body@] + fs) == bodies_view(frames@) + fs);
            }
            pos = end;
        }
        let mut rest: Vec<u8> = Vec::new();
        append_bytes(&mut rest, &self.pending.as_slice()[pos..n]);
        proof {
            assert(bodies_view(frames@) + Seq::<Seq<u8>>::empty() == bodies_view(frames@));
        }
        self.pending = rest;
        frames
    }

    /// Whether the stream may end here: `ConnectionClosed` when part of a
    /// frame is still held.
    pub fn finish(&self) -> (r: Result<(), WireError>)
        ensures
            r is Ok <==> self@.len() == 0,
            r is Err ==> r == Err::<(), WireError>(WireError::ConnectionClosed),
    {
        if self.pending.len() == 0 {
            Ok(())
        } else {
            Err(WireError::ConnectionClosed)
        }
    }
}

/// Splitting a stream into frames can be done piecewise: the frames of
/// `a + b` are the whole frames of `a`, then the frames of what `a` leaves
/// over followed by `b`.
pub proof fn lemma_split_append(a: Seq<u8>, b: Seq<u8>)
    ensures
        split_frames(a + b) == (
            split_frames(a).0 + split_frames(split_frames(a).1 + b).0,
            split_frames(split_frames(a).1 + b).1,
        ),
    decreases a.len(),
{
    if has_frame(a) {
        let end = 4 + be_at(a, 0);
        let ab = a + b;
        assert(be_at(ab, 0) == be_at(a, 0));
        assert(has_frame(ab));
        assert(ab.subrange(4, end) == a.subrange(4, end));
        let a2 = a.subrange(end, a.len() as int);
        assert(ab.subrange(end, ab.len() as int) == a2 + b);
        lemma_split_append(a2, b);
        let (fa, _) = split_frames(a2);
        assert(seq![a.subrange(4, end)] + fa + split_frames(split_frames(a2).1 + b).0 == seq![
            a.subrange(4, end),
        ] + (fa + split_frames(split_frames(a2).1 + b).0));
    } else {
        assert(Seq::<Seq<u8>>::empty() + split_frames(a + b).0 == split_frames(a + b).0);
    }
}

/// A stream that arrives in pieces of any size is framed exactly as if it
/// arrived whole: the bodies handed out and the bytes left held are the
/// same.
pub proof fn lemma_chunked_delivery(chunks: Seq<Seq<u8>>)
    ensures
        deliver_chunks(chunks) == split_frames(concat_chunks(chunks)),
    decreases chunks.len(),
{
    if chunks.len() == 0 {
        assert(!has_frame(Seq::<u8>::empty()));
    } else {
        let init = chunks.drop_last();
        lemma_chunked_delivery(init);
        lemma_split_append(concat_chunks(init), chunks.last());
        let (f0, h0) = split_frames(concat_chunks(init));
        let (f1, r1) = split_frames(h0 + chunks.last());
        assert(deliver_chunks(chunks) == (f0 + f1, r1));
    }
}

/// A single frame is read back as its body, with nothing left over.
pub proof fn lemma_frame_round_trip(body: Seq<u8>)
    requires
        body.len() <= u32::MAX,
    ensures
        split_frames(frame_of(body)) == (seq![body], Seq::<u8>::empty()),
{
    let f = frame_of(body);
    lemma_u32_round_trip(body.len() as u32);
    assert(be_at(f, 0) == be_at(be_bytes(body.len() as u32), 0));
    assert(has_frame(f));
    assert(f.subrange(4, f.len() as int) == body);
    let empty = f.subrange(f.len() as int, f.len() as int);
    assert(empty == Seq::<u8>::empty());
    assert(!has_frame(empty));
    assert(split_frames(empty) == (Seq::<Seq<u8>>::empty(), empty));
    assert(f.len() == 4 + body.len());
    assert(seq![body] + Seq::<Seq<u8>>::empty() == seq![body]);
}

} // verus!
