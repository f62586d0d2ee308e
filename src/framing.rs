use vstd::prelude::*;

use crate::body::copy_range;

verus! {

/// The length of a frame header: eight marker bytes and a four-byte length.
pub const FRAME_HEADER_LEN: usize = 12;

/// The marker that opens every frame header.
pub open spec fn frame_marker() -> Seq<u8> {
    seq![0x00u8, 0xF1, 0x01, 0xE4, 0x02, 0xFF, 0x03, 0xDD]
}

/// `n` as four big-endian bytes.
pub open spec fn be32(n: nat) -> Seq<u8> {
    seq![
        ((n / 0x1000000) % 0x100) as u8,
        ((n / 0x10000) % 0x100) as u8,
        ((n / 0x100) % 0x100) as u8,
        (n % 0x100) as u8,
    ]
}

/// The number that four big-endian bytes spell.
pub open spec fn be32_value(b: Seq<u8>) -> nat {
    b[0] as nat * 0x1000000 + b[1] as nat * 0x10000 + b[2] as nat * 0x100 + b[3] as nat
}

/// A payload as one frame on the wire.
pub open spec fn frame_bytes(payload: Seq<u8>) -> Seq<u8> {
    frame_marker() + be32(payload.len()) + payload
}

/// Frames laid one after the other.
pub open spec fn frames_bytes(frames: Seq<Seq<u8>>) -> Seq<u8>
    decreases frames.len(),
{
    if frames.len() == 0 {
        Seq::empty()
    } else {
        frame_bytes(frames[0]) + frames_bytes(frames.drop_first())
    }
}

/// The payload length that a frame header at the start of `s` announces.
pub open spec fn header_len(s: Seq<u8>) -> Option<nat> {
    if s.len() >= 12 && s.subrange(0, 8) == frame_marker() {
        Some(be32_value(s.subrange(8, 12)))
    } else {
        None
    }
}

/// True when `s` starts with a whole frame.
pub open spec fn has_frame(s: Seq<u8>) -> bool {
    header_len(s) matches Some(n) && s.len() >= 12 + n
}

/// The payload of the whole frame at the start of `s`.
pub open spec fn first_payload(s: Seq<u8>) -> Seq<u8> {
    s.subrange(12, 12 + header_len(s)->Some_0 as int)
}

/// What follows the whole frame at the start of `s`.
pub open spec fn after_first(s: Seq<u8>) -> Seq<u8> {
    s.subrange(12 + header_len(s)->Some_0 as int, s.len() as int)
}

/// The payloads of the whole frames at the start of `s`, in order.
pub open spec fn frames_of(s: Seq<u8>) -> Seq<Seq<u8>>
    decreases s.len(),
{
    if has_frame(s) {
        seq![first_payload(s)] + frames_of(after_first(s))
    } else {
        Seq::empty()
    }
}

/// The bytes of `s` left once its whole frames are taken.
pub open spec fn rest_of(s: Seq<u8>) -> Seq<u8>
    decreases s.len(),
{
    if has_frame(s) {
        rest_of(after_first(s))
    } else {
        s
    }
}

/// The byte slices, joined in order.
pub open spec fn joined_slices(chunks: Seq<Seq<u8>>) -> Seq<u8>
    decreases chunks.len(),
{
    if chunks.len() == 0 {
        Seq::empty()
    } else {
        chunks[0] + joined_slices(chunks.drop_first())
    }
}

/// The payloads that a decoder holding `buffer` delivers when fed `chunks`
/// one after the other.
pub open spec fn delivered(buffer: Seq<u8>, chunks: Seq<Seq<u8>>) -> Seq<Seq<u8>>
    decreases chunks.len(),
{
    if chunks.len() == 0 {
        Seq::empty()
    } else {
        frames_of(buffer + chunks[0]) + delivered(rest_of(buffer + chunks[0]), chunks.drop_first())
    }
}

/// Reassembles frames from the slices in which a stream's bytes arrive.
pub struct FrameDecoder {
    pub buffer: Vec<u8>,
}

proof fn lemma_be32_round_trip(n: nat)
    requires
        n <= u32::MAX,
    ensures
        be32(n).len() == 4,
        be32_value(be32(n)) == n,
{
    let b = be32(n);
    assert(b[0] as nat == (n / 0x1000000) % 0x100);
    assert(b[1] as nat == (n / 0x10000) % 0x100);
    assert(b[2] as nat == (n / 0x100) % 0x100);
    assert(b[3] as nat == n % 0x100);
    assert((n / 0x1000000) % 0x100 * 0x1000000 + (n / 0x10000) % 0x100 * 0x10000 + (n / 0x100)
        % 0x100 * 0x100 + n % 0x100 == n) by (nonlinear_arith)
        requires
            n <= 0xFFFF_FFFF,
    ;
}

/// A frame header followed by more bytes reads the same.
proof fn lemma_header_extends(s: Seq<u8>, x: Seq<u8>)
    requires
        s.len() >= 12,
    ensures
        header_len(s + x) == header_len(s),
{
    assert((s + x).subrange(0, 8) =~= s.subrange(0, 8));
    assert((s + x).subrange(8, 12) =~= s.subrange(8, 12));
}

/// Delivering from a longer input first delivers what the shorter one held.
proof fn lemma_frames_append(s: Seq<u8>, x: Seq<u8>)
    ensures
        frames_of(s + x) == frames_of(s) + frames_of(rest_of(s) + x),
    decreases s.len(),
{
    if has_frame(s) {
        lemma_header_extends(s, x);
        let n = header_len(s)->Some_0;
        assert(has_frame(s + x));
        assert(first_payload(s + x) =~= first_payload(s));
        assert(after_first(s + x) =~= after_first(s) + x);
        lemma_frames_append(after_first(s), x);
        assert(frames_of(s + x) =~= frames_of(s) + frames_of(rest_of(s) + x));
    } else {
        assert(frames_of(s) =~= Seq::<Seq<u8>>::empty());
        assert(frames_of(s) + frames_of(rest_of(s) + x) =~= frames_of(s + x));
    }
}

proof fn lemma_rest_has_no_frame(s: Seq<u8>)
    ensures
        !has_frame(rest_of(s)),
    decreases s.len(),
{
    if has_frame(s) {
        lemma_rest_has_no_frame(after_first(s));
    }
}

proof fn lemma_rest_append(s: Seq<u8>, x: Seq<u8>)
    ensures
        rest_of(s + x) == rest_of(rest_of(s) + x),
    decreases s.len(),
{
    if has_frame(s) {
        lemma_header_extends(s, x);
        assert(after_first(s + x) =~= after_first(s) + x);
        lemma_rest_append(after_first(s), x);
    }
}

/// Frames laid one after the other are read back as the same payloads, with
/// nothing left over.
proof fn lemma_frames_bytes(frames: Seq<Seq<u8>>)
    requires
        forall|i: int| 0 <= i < frames.len() ==> (#[trigger] frames[i]).len() <= u32::MAX,
    ensures
        frames_of(frames_bytes(frames)) == frames,
        rest_of(frames_bytes(frames)) == Seq::<u8>::empty(),
    decreases frames.len(),
{
    if frames.len() > 0 {
        let f = frames[0];
        let tail = frames_bytes(frames.drop_first());
        let s = frames_bytes(frames);
        assert(s == frame_bytes(f) + tail);
        lemma_be32_round_trip(f.len());
        assert(s.subrange(0, 8) =~= frame_marker());
        assert(s.subrange(8, 12) =~= be32(f.len()));
        assert(header_len(s) == Some(f.len()));
        assert(first_payload(s) =~= f);
        assert(after_first(s) =~= tail);
        lemma_frames_bytes(frames.drop_first());
        assert(frames_of(s) =~= frames);
    } else {
        let s = frames_bytes(frames);
        assert(!has_frame(s));
        assert(frames_of(s) =~= frames);
    }
}

proof fn lemma_delivered(buffer: Seq<u8>, chunks: Seq<Seq<u8>>)
    requires
        !has_frame(buffer),
    ensures
        delivered(buffer, chunks) == frames_of(buffer + joined_slices(chunks)),
    decreases chunks.len(),
{
    if chunks.len() == 0 {
        assert(buffer + joined_slices(chunks) =~= buffer);
        assert(frames_of(buffer) =~= Seq::<Seq<u8>>::empty());
    } else {
        let c = chunks[0];
        let rest = chunks.drop_first();
        let b1 = buffer + c;
        lemma_rest_has_no_frame(b1);
        lemma_delivered(rest_of(b1), rest);
        lemma_frames_append(b1, joined_slices(rest));
        assert(buffer + joined_slices(chunks) =~= b1 + joined_slices(rest));
    }
}

/// However the bytes of a sequence of frames are cut into slices, a decoder
/// that starts empty delivers exactly those frames' payloads, in order.
pub proof fn lemma_framing_round_trip(frames: Seq<Seq<u8>>, chunks: Seq<Seq<u8>>)
    requires
        forall|i: int| 0 <= i < frames.len() ==> (#[trigger] frames[i]).len() <= u32::MAX,
        joined_slices(chunks) == frames_bytes(frames),
    ensures
        delivered(Seq::empty(), chunks) == frames,
{
    let e = Seq::<u8>::empty();
    assert(!has_frame(e));
    lemma_delivered(e, chunks);
    assert(e + joined_slices(chunks) =~= frames_bytes(frames));
    lemma_frames_bytes(frames);
}

/// Reads the payload length of a frame header at `pos`, if one starts there.
fn read_header(buf: &Vec<u8>, pos: usize) -> (r: Option<u64>)
    requires
        pos <= buf@.len(),
    ensures
        r matches Some(n) ==> header_len(buf@.subrange(pos as int, buf@.len() as int)) == Some(
            n as nat,
        ),
        r is None ==> header_len(buf@.subrange(pos as int, buf@.len() as int)) is None,
{
    let ghost s = buf@.subrange(pos as int, buf@.len() as int);
    if buf.len() - pos < FRAME_HEADER_LEN {
        return None;
    }
    assert(buf@.len() == buf.len());
    let marker: [u8; 8] = [0x00, 0xF1, 0x01, 0xE4, 0x02, 0xFF, 0x03, 0xDD];
    let mut i: usize = 0;
    while i < 8
        invariant
            i <= 8,
            pos + 12 <= buf@.len(),
            buf@.len() <= usize::MAX,
            s == buf@.subrange(pos as int, buf@.len() as int),
            marker@ == frame_marker(),
            forall|j: int| 0 <= j < i ==> s[j] == frame_marker()[j],
        decreases 8 - i,
    {
        if buf[pos + i] != marker[i] {
            assert(s.subrange(0, 8)[i as int] != frame_marker()[i as int]);
            return None;
        }
        i = i + 1;
    }
    assert(s.subrange(0, 8) =~= frame_marker());
    let n = (buf[pos + 8] as u64) * 0x1000000 + (buf[pos + 9] as u64) * 0x10000 + (buf[pos + 10]
        as u64) * 0x100 + (buf[pos + 11] as u64);
    Some(n)
}

impl FrameDecoder {
    pub fn new() -> (r: FrameDecoder)
        ensures
            r.buffer@ == Seq::<u8>::empty(),
    {
        FrameDecoder { buffer: Vec::new() }
    }

    /// Takes in one slice of the stream and hands back the payloads of the
    /// frames that it completes, in order; what follows them waits for the
    /// next slice.
    pub fn push_slice(&mut self, slice: &[u8]) -> (r: Vec<Vec<u8>>)
        requires
            old(self).buffer@.len() + slice@.len() <= usize::MAX,
        ensures
            r@.map_values(|f: Vec<u8>| f@) == frames_of(old(self).buffer@ + slice@),
            final(self).buffer@ == rest_of(old(self).buffer@ + slice@),
    {
        let ghost all = self.buffer@ + slice@;
        let mut buf: Vec<u8> = Vec::new();
        std::mem::swap(&mut buf, &mut self.buffer);
        let mut k: usize = 0;
        while k < slice.len()
            invariant
                k <= slice@.len(),
                buf@ == old(self).buffer@ + slice@.subrange(0, k as int),
            decreases slice@.len() - k,
        {
            buf.push(slice[k]);
            k = k + 1;
            assert(buf@ =~= old(self).buffer@ + slice@.subrange(0, k as int));
        }
        assert(buf@ =~= all);
        let mut out: Vec<Vec<u8>> = Vec::new();
        let mut pos: usize = 0;
        assert(all.subrange(0, all.len() as int) =~= all);
        assert(out@.map_values(|f: Vec<u8>| f@) =~= Seq::<Seq<u8>>::empty());
        loop
            invariant
                pos <= buf@.len(),
                buf@ == all,
                frames_of(all) == out@.map_values(|f: Vec<u8>| f@) + frames_of(
                    all.subrange(pos as int, all.len() as int),
                ),
                rest_of(all) == rest_of(all.subrange(pos as int, all.len() as int)),
            ensures
                pos <= buf@.len(),
                buf@ == all,
                frames_of(all) == out@.map_values(|f: Vec<u8>| f@) + frames_of(
                    all.subrange(pos as int, all.len() as int),
                ),
                rest_of(all) == rest_of(all.subrange(pos as int, all.len() as int)),
                !has_frame(all.subrange(pos as int, all.len() as int)),
            decreases buf@.len() - pos,
        {
            let ghost s = all.subrange(pos as int, all.len() as int);
            let n = match read_header(&buf, pos) {
                Some(n) => n,
                None => {
                    assert(!has_frame(s));
                    break;
                },
            };
            let avail = buf.len() - pos - FRAME_HEADER_LEN;
            if n > avail as u64 {
                assert(!has_frame(s));
                break;
            }
            let n = n as usize;
            let start = pos + FRAME_HEADER_LEN;
            let payload = copy_range(buf.as_slice(), start, start + n);
            let ghost before = out@.map_values(|f: Vec<u8>| f@);
            out.push(payload);
            proof {
                assert(has_frame(s));
                assert(first_payload(s) =~= payload@);
                assert(after_first(s) =~= all.subrange((start + n) as int, all.len() as int));
                assert(out@.map_values(|f: Vec<u8>| f@) =~= before.push(payload@));
                assert(frames_of(s) == seq![first_payload(s)] + frames_of(after_first(s)));
                assert(before + frames_of(s) =~= out@.map_values(|f: Vec<u8>| f@) + frames_of(
                    after_first(s),
                ));
            }
            pos = start + n;
        }
        let ghost s = all.subrange(pos as int, all.len() as int);
        assert(frames_of(s) =~= Seq::<Seq<u8>>::empty());
        assert(out@.map_values(|f: Vec<u8>| f@) =~= frames_of(all));
        self.buffer = copy_range(buf.as_slice(), pos, buf.len());
        out
    }
}

/// Relies on stream_framer's `FrameWriter::prepend_frame` for `Vec<u8>`: it
/// puts the eight marker bytes and the payload length as four big-endian bytes
/// before the payload, and fails when the length does not fit in 32 bits.
#[verifier::external_body]
fn prepend_frame(payload: Vec<u8>) -> (r: Option<Vec<u8>>)
    ensures
        r is Some == (payload@.len() <= u32::MAX),
        r matches Some(f) ==> f@ == frame_bytes(payload@),
{
    stream_framer::FrameWriter::prepend_frame(payload).ok()
}

/// A payload as one frame on the wire; `None` when it is longer than a frame
/// header can announce.
pub fn encode_frame(payload: Vec<u8>) -> (r: Option<Vec<u8>>)
    ensures
        payload@.len() <= u32::MAX ==> (r matches Some(f) && f@ == frame_bytes(payload@)),
        payload@.len() > u32::MAX ==> r is None,
{
    prepend_frame(payload)
}

} // verus!
