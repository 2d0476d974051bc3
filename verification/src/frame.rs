//! The frame codec: length prefixes, continuation flags and reassembly.
//!
//! On the wire a frame is a two-byte big-endian length `L` followed by `L`
//! bytes. In frames that the host sends, the first of those bytes is a flag
//! byte: its high bit says that more frames of the same packet follow. The
//! payload of a packet is what remains of its frames, in order, once every
//! flag byte is dropped. Frames that the daemon sends carry one whole payload
//! each and no flag byte.

use crate::error::InternalError;
use byteorder::{ByteOrder, NetworkEndian, ReadBytesExt};
use vstd::prelude::*;
use vstd::slice::slice_subrange;

verus! {

/// The longest payload that one frame can carry.
pub const MAX_FRAME_LEN: usize = 65535;

/// The bit of the flag byte that announces a further frame.
pub const CONTINUATION_FLAG: u8 = 0x80;

/// The number that two bytes spell in big-endian order.
pub open spec fn be_u16(hi: u8, lo: u8) -> u16 {
    (hi as int * 256 + lo as int) as u16
}

/// The two bytes that spell `n` in big-endian order.
pub open spec fn be_bytes(n: u16) -> Seq<u8> {
    seq![(n / 256) as u8, (n % 256) as u8]
}

/// Whether the frame announces a further frame of the same packet.
pub open spec fn continues(frame: Seq<u8>) -> bool {
    frame.len() > 0 && frame[0] & CONTINUATION_FLAG != 0
}

/// Whether the frame closes its packet.
pub open spec fn is_final(frame: Seq<u8>) -> bool {
    frame.len() > 0 && frame[0] & CONTINUATION_FLAG == 0
}

/// What a frame contributes to the payload: all but its flag byte.
pub open spec fn frame_body(frame: Seq<u8>) -> Seq<u8> {
    if frame.len() == 0 {
        Seq::empty()
    } else {
        frame.subrange(1, frame.len() as int)
    }
}

/// The payload that a chain of frames carries.
pub open spec fn chain_body(frames: Seq<Seq<u8>>) -> Seq<u8> {
    frames.map_values(|f: Seq<u8>| frame_body(f)).flatten()
}

/// Whether every frame has at least its flag byte.
pub open spec fn all_nonempty(frames: Seq<Seq<u8>>) -> bool {
    forall|i: int| 0 <= i < frames.len() ==> (#[trigger] frames[i]).len() > 0
}

/// A complete chain: at least one frame, every frame but the last announces
/// a successor, and the last one does not.
pub open spec fn well_flagged(frames: Seq<Seq<u8>>) -> bool {
    &&& frames.len() >= 1
    &&& forall|i: int| 0 <= i < frames.len() - 1 ==> continues(#[trigger] frames[i])
    &&& is_final(frames.last())
}

/// The bytes that go on the wire for one outgoing payload.
pub open spec fn wire_frame(payload: Seq<u8>) -> Seq<u8> {
    be_bytes(payload.len() as u16) + payload
}

/// Calls `byteorder::ReadBytesExt::read_u16::<NetworkEndian>` on a byte slice.
/// With two bytes or more in the slice the call reads the first two and
/// returns the number they spell, high byte first; with fewer it fails, as
/// `read_exact` does on a reader that ends too early.
#[verifier::external_body]
fn read_u16_be(buf: &[u8]) -> (r: Result<u16, std::io::Error>)
    ensures
        buf@.len() >= 2 ==> r is Ok && r->Ok_0 == be_u16(buf@[0], buf@[1]),
        buf@.len() < 2 ==> r is Err,
{
    let mut reader = buf;
    reader.read_u16::<NetworkEndian>()
}

/// Calls `byteorder::ByteOrder::write_u16` for `NetworkEndian` on a buffer of
/// two bytes, which it fills with `n`, high byte first.
#[verifier::external_body]
fn write_u16_be(n: u16) -> (bytes: [u8; 2])
    ensures
        bytes@ == be_bytes(n),
{
    let mut bytes = [0u8; 2];
    NetworkEndian::write_u16(&mut bytes, n);
    bytes
}

/// Reads a length prefix: the number that the first two bytes spell, high
/// byte first. Fewer than two bytes are no prefix.
pub fn frame_length(header: &[u8]) -> (r: Result<u16, InternalError>)
    ensures
        header@.len() >= 2 ==> (r matches Ok(len) && len == be_u16(header@[0], header@[1])),
        header@.len() < 2 ==> r matches Err(InternalError::IoError { .. }),
{
    match read_u16_be(header) {
        Ok(len) => Ok(len),
        Err(e) => Err(InternalError::from(e)),
    }
}

/// Tells from the flag byte whether the frame closes its packet. A frame
/// without a flag byte is rejected.
pub fn is_finished(frame: &[u8]) -> (r: Result<bool, InternalError>)
    ensures
        frame@.len() == 0 ==> r matches Err(InternalError::EmptyFrame),
        frame@.len() > 0 ==> (r matches Ok(last) && last == is_final(frame@)),
{
    if frame.len() == 0 {
        return Err(InternalError::EmptyFrame);
    }
    Ok((frame[0] & CONTINUATION_FLAG) == 0)
}

/// Puts a chain of frames back together: drops the flag byte of every frame
/// and joins what is left, in order. A frame without a flag byte makes the
/// whole chain malformed.
pub fn decode_packets(packets: Vec<Vec<u8>>) -> (r: Result<Vec<u8>, InternalError>)
    ensures
        all_nonempty(packets.deep_view()) ==> (r matches Ok(body) && body@ == chain_body(
            packets.deep_view(),
        )),
        !all_nonempty(packets.deep_view()) ==> r matches Err(InternalError::EmptyFrame),
{
    let ghost frames = packets.deep_view();
    let mut body: Vec<u8> = Vec::new();
    let mut i: usize = 0;
    proof {
        assert(frames.take(0) =~= Seq::<Seq<u8>>::empty());
        assert(frames.take(0).map_values(|f: Seq<u8>| frame_body(f)) =~= Seq::<Seq<u8>>::empty());
    }
    while i < packets.len()
        invariant
            i <= packets.len(),
            frames == packets.deep_view(),
            frames.len() == packets@.len(),
            all_nonempty(frames.take(i as int)),
            body@ == chain_body(frames.take(i as int)),
        decreases packets.len() - i,
    {
        let frame = &packets[i];
        assert(frames[i as int] == frame@);
        if frame.len() == 0 {
            return Err(InternalError::EmptyFrame);
        }
        let rest = slice_subrange(frame.as_slice(), 1, frame.len());
        let ghost before = body@;
        body.extend_from_slice(rest);
        proof {
            assert(body@ =~= before + frame_body(frame@));
            assert(frames.take(i + 1) =~= frames.take(i as int).push(frame@));
            lemma_chain_body_push(frames.take(i as int), frame@);
        }
        i += 1;
    }
    proof {
        assert(frames.take(i as int) =~= frames);
    }
    Ok(body)
}

/// Frames one outgoing payload: the length prefix, then the payload. A
/// payload too long for the 16-bit prefix is refused.
pub fn encode_frame(payload: &[u8]) -> (r: Result<Vec<u8>, InternalError>)
    ensures
        payload@.len() <= MAX_FRAME_LEN ==> (r matches Ok(wire) && wire@ == wire_frame(payload@)),
        payload@.len() > MAX_FRAME_LEN ==> (r matches Err(InternalError::FrameTooLarge { len })
            && len == payload@.len()),
{
    let len = payload.len();
    if len > MAX_FRAME_LEN {
        return Err(InternalError::FrameTooLarge { len });
    }
    let prefix = write_u16_be(len as u16);
    let mut wire: Vec<u8> = Vec::with_capacity(len + 2);
    wire.push(prefix[0]);
    wire.push(prefix[1]);
    wire.extend_from_slice(payload);
    assert(wire@ =~= wire_frame(payload@));
    Ok(wire)
}

/// Appending a frame to a chain appends that frame's body to the payload.
pub proof fn lemma_chain_body_push(frames: Seq<Seq<u8>>, frame: Seq<u8>)
    ensures
        chain_body(frames.push(frame)) == chain_body(frames) + frame_body(frame),
{
    let f = |f: Seq<u8>| frame_body(f);
    assert(frames.push(frame).map_values(f) =~= frames.map_values(f).push(frame_body(frame)));
    frames.map_values(f).lemma_flatten_push(frame_body(frame));
}

/// Two bytes spell the number whose big-endian bytes they are, and the
/// other way round.
pub proof fn lemma_be_round_trip(n: u16, hi: u8, lo: u8)
    ensures
        be_bytes(n).len() == 2,
        be_u16(be_bytes(n)[0], be_bytes(n)[1]) == n,
        be_bytes(be_u16(hi, lo)) == seq![hi, lo],
{
    assert(be_bytes(be_u16(hi, lo)) =~= seq![hi, lo]);
}

/// What is framed can be read back: the first two bytes of a wire frame spell
/// the length of the payload, and the payload follows them, unchanged and
/// with nothing after it.
pub proof fn lemma_wire_frame_round_trip(payload: Seq<u8>)
    requires
        payload.len() <= MAX_FRAME_LEN,
    ensures
        wire_frame(payload).len() == payload.len() + 2,
        be_u16(wire_frame(payload)[0], wire_frame(payload)[1]) == payload.len(),
        wire_frame(payload).subrange(2, wire_frame(payload).len() as int) == payload,
{
    let wire = wire_frame(payload);
    lemma_be_round_trip(payload.len() as u16, 0, 0);
    assert(wire[0] == be_bytes(payload.len() as u16)[0]);
    assert(wire[1] == be_bytes(payload.len() as u16)[1]);
    assert(wire.subrange(2, wire.len() as int) =~= payload);
}

} // verus!
