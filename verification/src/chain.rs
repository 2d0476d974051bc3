//! Collecting the frames of one packet as they arrive.

use crate::error::InternalError;
use crate::frame::{
    all_nonempty, chain_body, continues, frame_body, is_final, is_finished, well_flagged,
    CONTINUATION_FLAG,
};
use crate::packet::PacketView;
use vstd::prelude::*;

verus! {

/// What one arriving frame does to the frames held so far: the frames held
/// afterwards, and the chain that the frame completed, if it completed one.
/// A frame without a flag byte is turned away and changes nothing.
pub open spec fn push_spec(held: Seq<Seq<u8>>, frame: Seq<u8>) -> (
    Seq<Seq<u8>>,
    Option<Seq<Seq<u8>>>,
) {
    if frame.len() == 0 {
        (held, None)
    } else if continues(frame) {
        (held.push(frame), None)
    } else {
        (Seq::empty(), Some(held.push(frame)))
    }
}

/// What a run of arriving frames does, one after the other: the frames held
/// at the end, and the chains completed on the way, in the order of their
/// completion.
pub open spec fn feed(held: Seq<Seq<u8>>, frames: Seq<Seq<u8>>) -> (
    Seq<Seq<u8>>,
    Seq<Seq<Seq<u8>>>,
)
    decreases frames.len(),
{
    if frames.len() == 0 {
        (held, Seq::empty())
    } else {
        let (before, chains) = feed(held, frames.drop_last());
        let (after, done) = push_spec(before, frames.last());
        match done {
            Some(chain) => (after, chains.push(chain)),
            None => (after, chains),
        }
    }
}

/// The frames of the packet that is arriving. Every frame held announces a
/// successor: the frame that closes a packet leaves together with the rest.
pub struct PacketChain {
    frames: Vec<Vec<u8>>,
}

impl View for PacketChain {
    type V = Seq<Seq<u8>>;

    closed spec fn view(&self) -> Seq<Seq<u8>> {
        self.frames.deep_view()
    }
}

impl PacketChain {
    #[verifier::type_invariant]
    spec fn held_frames_continue(self) -> bool {
        forall|i: int|
            0 <= i < self.frames@.len() ==> continues((#[trigger] self.frames@[i])@)
    }

    /// An accumulator that holds nothing.
    pub fn new() -> (chain: PacketChain)
        ensures
            chain@ == Seq::<Seq<u8>>::empty(),
    {
        let chain = PacketChain { frames: Vec::new() };
        assert(chain@ =~= Seq::<Seq<u8>>::empty());
        chain
    }

    /// How many frames are held.
    pub fn len(&self) -> (n: usize)
        ensures
            n == self@.len(),
    {
        self.frames.len()
    }

    /// Takes in the next frame. While frames announce a successor they are
    /// held back; the frame that does not completes the chain, which is handed
    /// out whole and in order of arrival, and the accumulator is empty again.
    /// A frame without a flag byte is turned away and changes nothing.
    pub fn push(&mut self, frame: Vec<u8>) -> (r: Result<Option<Vec<Vec<u8>>>, InternalError>)
        ensures
            final(self)@ == push_spec(old(self)@, frame@).0,
            frame@.len() == 0 ==> r matches Err(InternalError::EmptyFrame),
            frame@.len() > 0 ==> match push_spec(old(self)@, frame@).1 {
                Some(done) => r matches Ok(Some(chain)) && chain.deep_view() == done
                    && well_flagged(done),
                None => r matches Ok(None),
            },
    {
        let finished = match is_finished(frame.as_slice()) {
            Ok(finished) => finished,
            Err(e) => return Err(e),
        };
        let ghost held = self@;
        let ghost bytes = frame@;
        let mut taken = PacketChain::new();
        std::mem::swap(self, &mut taken);
        proof {
            use_type_invariant(&taken);
        }
        let mut frames = taken.frames;
        frames.push(frame);
        assert(frames.deep_view() =~= held.push(bytes)) by {
            assert(frames@.last().deep_view() =~= bytes);
        }
        if finished {
            Ok(Some(frames))
        } else {
            *self = PacketChain { frames };
            Ok(None)
        }
    }
}

/// A chunk of payload behind its flag byte.
pub open spec fn with_flag(flag: u8, chunk: Seq<u8>) -> Seq<u8> {
    seq![flag] + chunk
}

/// The frames that carry the chunks of a payload, each behind its flag byte.
pub open spec fn framed(flags: Seq<u8>, chunks: Seq<Seq<u8>>) -> Seq<Seq<u8>> {
    Seq::new(chunks.len(), |i: int| with_flag(flags[i], chunks[i]))
}

/// Flag bytes as a chain needs them: the continuation bit is set in all but
/// the last, and clear in the last. The other bits are free.
pub open spec fn flags_mark_last(flags: Seq<u8>) -> bool {
    &&& flags.len() >= 1
    &&& forall|i: int| 0 <= i < flags.len() - 1 ==> (#[trigger] flags[i]) & CONTINUATION_FLAG != 0
    &&& flags.last() & CONTINUATION_FLAG == 0
}

/// Feeding two runs of frames one after the other is feeding their
/// concatenation.
pub proof fn lemma_feed_concat(held: Seq<Seq<u8>>, first: Seq<Seq<u8>>, second: Seq<Seq<u8>>)
    ensures
        feed(held, first + second) == (
            feed(feed(held, first).0, second).0,
            feed(held, first).1 + feed(feed(held, first).0, second).1,
        ),
    decreases second.len(),
{
    let mid = feed(held, first);
    if second.len() == 0 {
        assert(first + second =~= first);
        assert(mid.1 + feed(mid.0, second).1 =~= mid.1);
    } else {
        assert((first + second).drop_last() =~= first + second.drop_last());
        assert((first + second).last() == second.last());
        lemma_feed_concat(held, first, second.drop_last());
        let before = feed(mid.0, second.drop_last());
        let step = push_spec(before.0, second.last());
        match step.1 {
            Some(chain) => {
                assert(mid.1 + before.1.push(chain) =~= (mid.1 + before.1).push(chain));
            },
            None => {},
        }
    }
}

/// While frames announce a successor, the accumulator only grows.
proof fn lemma_feed_continuing(held: Seq<Seq<u8>>, frames: Seq<Seq<u8>>)
    requires
        forall|i: int| 0 <= i < frames.len() ==> continues(#[trigger] frames[i]),
    ensures
        feed(held, frames) == (held + frames, Seq::<Seq<Seq<u8>>>::empty()),
    decreases frames.len(),
{
    if frames.len() == 0 {
        assert(held + frames =~= held);
    } else {
        lemma_feed_continuing(held, frames.drop_last());
        assert(continues(frames[frames.len() - 1]));
        assert((held + frames.drop_last()).push(frames.last()) =~= held + frames);
    }
}

/// A complete chain, fed frame by frame into an empty accumulator, comes out
/// once, whole and in order, when its last frame arrives, and leaves the
/// accumulator empty.
pub proof fn lemma_feed_complete_chain(frames: Seq<Seq<u8>>)
    requires
        well_flagged(frames),
    ensures
        feed(Seq::empty(), frames) == (Seq::<Seq<u8>>::empty(), seq![frames]),
        forall|n: int|
            0 <= n < frames.len() ==> #[trigger] feed(Seq::empty(), frames.take(n)) == (
                frames.take(n),
                Seq::<Seq<Seq<u8>>>::empty(),
            ),
{
    let empty = Seq::<Seq<u8>>::empty();
    assert forall|n: int| 0 <= n < frames.len() implies #[trigger] feed(empty, frames.take(n)) == (
        frames.take(n),
        Seq::<Seq<Seq<u8>>>::empty(),
    ) by {
        lemma_feed_continuing(empty, frames.take(n));
        assert(empty + frames.take(n) =~= frames.take(n));
    }
    let head = frames.drop_last();
    assert(head =~= frames.take(frames.len() - 1));
    assert(feed(empty, head).0 == head);
    assert(head.push(frames.last()) =~= frames);
    assert(Seq::<Seq<Seq<u8>>>::empty().push(frames) =~= seq![frames]);
}

/// A stream of complete chains, fed frame by frame, comes out chain by chain:
/// the same chains, in the same order, and nothing is left over.
pub proof fn lemma_feed_chains(chains: Seq<Seq<Seq<u8>>>)
    requires
        forall|k: int| 0 <= k < chains.len() ==> well_flagged(#[trigger] chains[k]),
    ensures
        feed(Seq::empty(), chains.flatten()) == (Seq::<Seq<u8>>::empty(), chains),
    decreases chains.len(),
{
    let empty = Seq::<Seq<u8>>::empty();
    if chains.len() == 0 {
        assert(chains.flatten() =~= empty);
        assert(chains =~= Seq::<Seq<Seq<u8>>>::empty());
    } else {
        let head = chains.drop_last();
        let last = chains.last();
        assert forall|k: int| 0 <= k < head.len() implies well_flagged(#[trigger] head[k]) by {
            assert(head[k] == chains[k]);
        }
        lemma_feed_chains(head);
        assert(well_flagged(chains[chains.len() - 1]));
        lemma_feed_complete_chain(last);
        head.lemma_flatten_push(last);
        assert(head.push(last) =~= chains);
        lemma_feed_concat(empty, head.flatten(), last);
        assert(head + seq![last] =~= chains);
    }
}

/// Reassembly undoes any split. Cut a payload into one chunk or more, put a
/// flag byte before each chunk, with the continuation bit set in all but the
/// last: the frames form a complete chain whose payload is the chunks joined
/// in order, however many chunks there are and wherever the cuts fall. Fed
/// frame by frame into an empty accumulator, the chain comes out once, whole,
/// with its last frame.
pub proof fn lemma_reassembly(flags: Seq<u8>, chunks: Seq<Seq<u8>>)
    requires
        chunks.len() >= 1,
        flags.len() == chunks.len(),
        flags_mark_last(flags),
    ensures
        well_flagged(framed(flags, chunks)),
        all_nonempty(framed(flags, chunks)),
        chain_body(framed(flags, chunks)) == chunks.flatten(),
        feed(Seq::empty(), framed(flags, chunks)) == (
            Seq::<Seq<u8>>::empty(),
            seq![framed(flags, chunks)],
        ),
{
    let frames = framed(flags, chunks);
    lemma_framed_body(flags, chunks);
    assert forall|i: int| 0 <= i < frames.len() implies (#[trigger] frames[i]).len() > 0
        && frames[i][0] == flags[i] by {
        assert(frames[i] == with_flag(flags[i], chunks[i]));
    }
    assert(is_final(frames.last()));
    assert forall|i: int| 0 <= i < frames.len() - 1 implies continues(#[trigger] frames[i]) by {
        assert(frames[i][0] == flags[i]);
    }
    lemma_feed_complete_chain(frames);
}

/// A packet survives the frames. Take any way of writing packets as bytes
/// that reads back what it wrote. Write a packet, cut the bytes into chunks
/// wherever you like, and send the chunks as a chain: what is read from the
/// payload of the chain is the packet.
pub proof fn lemma_round_trip(
    encode: spec_fn(PacketView) -> Seq<u8>,
    decode: spec_fn(Seq<u8>) -> Option<PacketView>,
    value: PacketView,
    flags: Seq<u8>,
    chunks: Seq<Seq<u8>>,
)
    requires
        decode(encode(value)) == Some(value),
        chunks.len() >= 1,
        flags.len() == chunks.len(),
        flags_mark_last(flags),
        chunks.flatten() == encode(value),
    ensures
        feed(Seq::empty(), framed(flags, chunks)).1 == seq![framed(flags, chunks)],
        all_nonempty(framed(flags, chunks)),
        decode(chain_body(framed(flags, chunks))) == Some(value),
{
    lemma_reassembly(flags, chunks);
}

/// Two splits of one payload carry the same payload: a chain of many frames
/// stands for what a single frame with the whole payload stands for.
pub proof fn lemma_split_independence(
    flags_a: Seq<u8>,
    chunks_a: Seq<Seq<u8>>,
    flags_b: Seq<u8>,
    chunks_b: Seq<Seq<u8>>,
)
    requires
        flags_a.len() == chunks_a.len(),
        flags_b.len() == chunks_b.len(),
        chunks_a.flatten() == chunks_b.flatten(),
    ensures
        chain_body(framed(flags_a, chunks_a)) == chain_body(framed(flags_b, chunks_b)),
{
    lemma_framed_body(flags_a, chunks_a);
    lemma_framed_body(flags_b, chunks_b);
}

/// Whatever the flag bytes are, the payload of the frames is the chunks
/// joined in order.
pub proof fn lemma_framed_body(flags: Seq<u8>, chunks: Seq<Seq<u8>>)
    requires
        flags.len() == chunks.len(),
    ensures
        chain_body(framed(flags, chunks)) == chunks.flatten(),
{
    let frames = framed(flags, chunks);
    assert forall|i: int| 0 <= i < frames.len() implies frame_body(
        #[trigger] frames[i],
    ) == chunks[i] by {
        assert(frames[i] == with_flag(flags[i], chunks[i]));
        assert(frame_body(frames[i]) =~= chunks[i]);
    }
    assert(frames.map_values(|f: Seq<u8>| frame_body(f)) =~= chunks);
}

} // verus!
