//! Cutting the host's byte stream into frames.
//!
//! The stream arrives in pieces of any size: a read may end in the middle of
//! a length prefix or of a payload. The reader keeps what it cannot use yet
//! and hands out every frame as soon as its last byte is in.

use crate::chain::{feed, flags_mark_last, framed, lemma_reassembly};
use crate::error::InternalError;
use crate::frame::{
    be_u16, chain_body, frame_length, lemma_wire_frame_round_trip, wire_frame, MAX_FRAME_LEN,
};
use vstd::prelude::*;
use vstd::slice::{slice_subrange, slice_to_vec};

verus! {

/// Whether the bytes begin with a whole frame: a length prefix and all the
/// bytes that it announces.
pub open spec fn starts_with_frame(bytes: Seq<u8>) -> bool {
    bytes.len() >= 2 && bytes.len() >= 2 + be_u16(bytes[0], bytes[1])
}

/// The length of the first frame on the wire, prefix included.
pub open spec fn first_frame_len(bytes: Seq<u8>) -> int {
    2 + be_u16(bytes[0], bytes[1])
}

/// The frames that the bytes hold from their start, as many as are whole,
/// and the bytes that are left behind the last of them.
pub open spec fn split_frames(bytes: Seq<u8>) -> (Seq<Seq<u8>>, Seq<u8>)
    decreases bytes.len(),
{
    if starts_with_frame(bytes) {
        let n = first_frame_len(bytes);
        let (frames, rest) = split_frames(bytes.subrange(n, bytes.len() as int));
        (seq![bytes.subrange(2, n)] + frames, rest)
    } else {
        (Seq::empty(), bytes)
    }
}

/// The bytes on the wire when payloads are framed and written one after the
/// other.
pub open spec fn wire_stream(payloads: Seq<Seq<u8>>) -> Seq<u8> {
    payloads.map_values(|p: Seq<u8>| wire_frame(p)).flatten()
}

/// The bytes of the stream that belong to a frame not yet complete.
pub struct FrameReader {
    pending: Vec<u8>,
}

impl View for FrameReader {
    type V = Seq<u8>;

    closed spec fn view(&self) -> Seq<u8> {
        self.pending@
    }
}

impl FrameReader {
    /// A reader at the start of the stream.
    pub fn new() -> (reader: FrameReader)
        ensures
            reader@ == Seq::<u8>::empty(),
    {
        FrameReader { pending: Vec::new() }
    }

    /// How many bytes are kept for a frame not yet complete.
    pub fn pending_len(&self) -> (n: usize)
        ensures
            n == self@.len(),
    {
        self.pending.len()
    }

    /// Takes in the bytes of one read. Together with the bytes kept from
    /// earlier reads they are cut into frames: every frame that is whole is
    /// handed out, in order and without its length prefix, and the bytes
    /// behind the last whole frame are kept for the next read. No whole frame
    /// is ever kept back, so what is kept is shorter than the longest frame
    /// with its prefix.
    pub fn feed(&mut self, bytes: &[u8]) -> (frames: Vec<Vec<u8>>)
        ensures
            frames.deep_view() == split_frames(old(self)@ + bytes@).0,
            final(self)@ == split_frames(old(self)@ + bytes@).1,
            !starts_with_frame(final(self)@),
            final(self)@.len() < MAX_FRAME_LEN + 2,
    {
        self.pending.extend_from_slice(bytes);
        let ghost all = self.pending@;
        assert(all =~= old(self)@ + bytes@);
        let total = self.pending.len();
        let mut frames: Vec<Vec<u8>> = Vec::new();
        let mut at: usize = 0;
        assert(all.subrange(0, total as int) =~= all);
        assert(Seq::<Seq<u8>>::empty() + split_frames(all).0 =~= split_frames(all).0);
        loop
            invariant
                at <= total,
                total == all.len(),
                self.pending@ == all,
                split_frames(all).0 == frames.deep_view() + split_frames(
                    all.subrange(at as int, total as int),
                ).0,
                split_frames(all).1 == split_frames(all.subrange(at as int, total as int)).1,
            ensures
                !starts_with_frame(all.subrange(at as int, total as int)),
            decreases total - at,
        {
            let ghost tail = all.subrange(at as int, total as int);
            if total - at < 2 {
                break;
            }
            let header = slice_subrange(self.pending.as_slice(), at, at + 2);
            assert(header@[0] == tail[0] && header@[1] == tail[1]);
            let len = match frame_length(header) {
                Ok(len) => len as usize,
                Err(_) => {
                    // two bytes always spell a length
                    assert(false);
                    break;
                },
            };
            if total - at - 2 < len {
                break;
            }
            let frame = slice_to_vec(slice_subrange(self.pending.as_slice(), at + 2, at + 2 + len));
            proof {
                let n = first_frame_len(tail);
                assert(starts_with_frame(tail));
                assert(tail.subrange(2, n) =~= frame@);
                assert(tail.subrange(n, tail.len() as int) =~= all.subrange(
                    at + 2 + len,
                    total as int,
                ));
                let rest = split_frames(all.subrange(at + 2 + len, total as int)).0;
                assert(frames.deep_view().push(frame@) + rest =~= frames.deep_view() + (seq![
                    frame@,
                ] + rest));
            }
            let ghost before = frames.deep_view();
            frames.push(frame);
            assert(frames.deep_view() =~= before.push(frame@)) by {
                assert(frames@.last().deep_view() =~= frame@);
            }
            at = at + 2 + len;
        }
        proof {
            assert(frames.deep_view() + Seq::<Seq<u8>>::empty() =~= frames.deep_view());
            lemma_split_rest(all);
        }
        let rest = slice_to_vec(slice_subrange(self.pending.as_slice(), at, total));
        self.pending = rest;
        frames
    }

    /// Judges the end of the stream. A stream that ends between two frames
    /// is the host hanging up, which is no error. One that ends inside a
    /// frame, prefix or payload, is cut short.
    pub fn finish(&self) -> (r: Result<(), InternalError>)
        ensures
            self@.len() == 0 ==> r is Ok,
            self@.len() > 0 ==> r matches Err(InternalError::TruncatedFrame),
    {
        if self.pending.len() == 0 {
            Ok(())
        } else {
            Err(InternalError::TruncatedFrame)
        }
    }
}

/// What is left behind the last whole frame holds no whole frame.
pub proof fn lemma_split_rest(bytes: Seq<u8>)
    ensures
        !starts_with_frame(split_frames(bytes).1),
        split_frames(split_frames(bytes).1) == (Seq::<Seq<u8>>::empty(), split_frames(bytes).1),
    decreases bytes.len(),
{
    if starts_with_frame(bytes) {
        lemma_split_rest(bytes.subrange(first_frame_len(bytes), bytes.len() as int));
    }
}

/// Framing does not depend on how the stream is cut into reads. Cutting the
/// first part into frames, and then what it left over together with the
/// second part, gives the frames of the whole, in the same order, and leaves
/// the same bytes over.
pub proof fn lemma_split_concat(first: Seq<u8>, second: Seq<u8>)
    ensures
        split_frames(first + second) == (
            split_frames(first).0 + split_frames(split_frames(first).1 + second).0,
            split_frames(split_frames(first).1 + second).1,
        ),
    decreases first.len(),
{
    let whole = first + second;
    if starts_with_frame(first) {
        let n = first_frame_len(first);
        assert(whole[0] == first[0] && whole[1] == first[1]);
        assert(starts_with_frame(whole));
        let tail = first.subrange(n, first.len() as int);
        assert(whole.subrange(n, whole.len() as int) =~= tail + second);
        assert(whole.subrange(2, n) =~= first.subrange(2, n));
        lemma_split_concat(tail, second);
        let frame = first.subrange(2, n);
        let a = split_frames(tail).0;
        let b = split_frames(split_frames(tail).1 + second).0;
        assert(seq![frame] + (a + b) =~= (seq![frame] + a) + b);
    } else {
        assert(Seq::<Seq<u8>>::empty() + split_frames(whole).0 =~= split_frames(whole).0);
    }
}

/// What the daemon writes, the same framing reads back: payloads framed and
/// written one after the other come off the wire as the same payloads, in
/// the order in which they were written, with no byte left over.
pub proof fn lemma_wire_stream_round_trip(payloads: Seq<Seq<u8>>)
    requires
        forall|i: int| 0 <= i < payloads.len() ==> (#[trigger] payloads[i]).len() <= MAX_FRAME_LEN,
    ensures
        split_frames(wire_stream(payloads)) == (payloads, Seq::<u8>::empty()),
    decreases payloads.len(),
{
    let frames = payloads.map_values(|p: Seq<u8>| wire_frame(p));
    if payloads.len() == 0 {
        assert(wire_stream(payloads) =~= Seq::<u8>::empty());
        assert(payloads =~= Seq::<Seq<u8>>::empty());
    } else {
        let head = payloads.first();
        let tail = payloads.drop_first();
        assert(frames.first() == wire_frame(head));
        assert(frames.drop_first() =~= tail.map_values(|p: Seq<u8>| wire_frame(p)));
        let wire = wire_stream(payloads);
        assert(wire == wire_frame(head) + wire_stream(tail));
        lemma_wire_frame_round_trip(head);
        let n = first_frame_len(wire);
        assert(wire[0] == wire_frame(head)[0] && wire[1] == wire_frame(head)[1]);
        assert(n == 2 + head.len());
        assert(starts_with_frame(wire));
        assert(wire.subrange(2, n) =~= head);
        assert(wire.subrange(n, wire.len() as int) =~= wire_stream(tail));
        assert forall|i: int| 0 <= i < tail.len() implies (#[trigger] tail[i]).len()
            <= MAX_FRAME_LEN by {
            assert(tail[i] == payloads[i + 1]);
        }
        lemma_wire_stream_round_trip(tail);
        assert(seq![head] + tail =~= payloads);
    }
}

/// From the host's chunks to the daemon's payload. Cut a payload into chunks,
/// none too long for a frame, put a flag byte before each, with the
/// continuation bit set in all but the last, and write every frame behind its
/// length prefix. Cut from the wire again, the frames are the ones written;
/// fed to the accumulator, they come out as one chain; and the payload of
/// that chain is the chunks joined in order.
pub proof fn lemma_chain_over_the_wire(flags: Seq<u8>, chunks: Seq<Seq<u8>>)
    requires
        chunks.len() >= 1,
        flags.len() == chunks.len(),
        flags_mark_last(flags),
        forall|i: int| 0 <= i < chunks.len() ==> (#[trigger] chunks[i]).len() < MAX_FRAME_LEN,
    ensures
        split_frames(wire_stream(framed(flags, chunks))) == (
            framed(flags, chunks),
            Seq::<u8>::empty(),
        ),
        feed(Seq::empty(), framed(flags, chunks)) == (
            Seq::<Seq<u8>>::empty(),
            seq![framed(flags, chunks)],
        ),
        chain_body(framed(flags, chunks)) == chunks.flatten(),
{
    let frames = framed(flags, chunks);
    assert forall|i: int| 0 <= i < frames.len() implies (#[trigger] frames[i]).len()
        <= MAX_FRAME_LEN by {
        assert(frames[i].len() == chunks[i].len() + 1);
    }
    lemma_wire_stream_round_trip(frames);
    lemma_reassembly(flags, chunks);
}

} // verus!
