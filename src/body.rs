use vstd::prelude::*;

verus! {

/// One chunk of a request body, addressed to a stream.
pub struct BodyRequest {
    pub packet_id: usize,
    pub stream_id: u64,
    pub payload: Vec<u8>,
    pub is_end: bool,
}

impl BodyRequest {
    pub fn new(stream_id: u64, packet_id: usize, payload: Vec<u8>, is_end: bool) -> (r: BodyRequest)
        ensures
            r.stream_id == stream_id,
            r.packet_id == packet_id,
            r.payload@ == payload@,
            r.is_end == is_end,
    {
        BodyRequest { packet_id, stream_id, payload, is_end }
    }

    pub fn stream_id(&self) -> (r: u64)
        ensures
            r == self.stream_id,
    {
        self.stream_id
    }

    pub fn packet_id(&self) -> (r: usize)
        ensures
            r == self.packet_id,
    {
        self.packet_id
    }

    /// Moves the payload out, leaving an empty one.
    pub fn take_data(&mut self) -> (r: Vec<u8>)
        ensures
            r@ == old(self).payload@,
            final(self).payload@.len() == 0,
            final(self).stream_id == old(self).stream_id,
            final(self).packet_id == old(self).packet_id,
            final(self).is_end == old(self).is_end,
    {
        let mut out: Vec<u8> = Vec::new();
        std::mem::swap(&mut out, &mut self.payload);
        out
    }

    pub fn data(&self) -> (r: &[u8])
        ensures
            r@ == self.payload@,
    {
        self.payload.as_slice()
    }

    pub fn len(&self) -> (r: usize)
        ensures
            r == self.payload@.len(),
    {
        self.payload.len()
    }

    pub fn is_end(&self) -> (r: bool)
        ensures
            r == self.is_end,
    {
        self.is_end
    }
}

/// A body chunk as the transport takes it: a stream, bytes and an end flag.
pub struct Http3Body {
    pub stream_id: u64,
    pub data: Vec<u8>,
    pub fin: bool,
}

/// Copies `data[start..end]`.
pub fn copy_range(data: &[u8], start: usize, end: usize) -> (r: Vec<u8>)
    requires
        start <= end <= data@.len(),
    ensures
        r@ == data@.subrange(start as int, end as int),
{
    let mut r: Vec<u8> = Vec::new();
    let mut i: usize = start;
    while i < end
        invariant
            start <= i <= end,
            end <= data@.len(),
            r@ =~= data@.subrange(start as int, i as int),
        decreases end - i,
    {
        r.push(data[i]);
        i = i + 1;
    }
    r
}

/// The payloads of a sequence of chunks, joined.
pub open spec fn joined(chunks: Seq<BodyRequest>) -> Seq<u8>
    decreases chunks.len(),
{
    if chunks.len() == 0 {
        Seq::empty()
    } else {
        joined(chunks.drop_last()) + chunks.last().payload@
    }
}

/// The number of chunks of at most `size` bytes that `len` bytes make; an
/// empty body still takes one (empty, final) chunk.
pub open spec fn chunk_count(len: nat, size: nat) -> nat
    recommends
        size > 0,
{
    if len == 0 {
        1
    } else {
        ((len + size - 1) as nat) / size
    }
}

/// Splits an in-memory body into chunks for `stream_id`: every chunk but the
/// last holds `chunk_size` bytes, packet ids count from zero, and only the
/// last chunk carries the end flag.
pub fn split_body(stream_id: u64, data: &[u8], chunk_size: usize) -> (r: Vec<BodyRequest>)
    requires
        chunk_size > 0,
    ensures
        joined(r@) == data@,
        r@.len() == chunk_count(data@.len() as nat, chunk_size as nat),
        r@.last().is_end,
        forall|i: int| 0 <= i < r@.len() - 1 ==> !(#[trigger] r@[i]).is_end,
        forall|i: int|
            0 <= i < r@.len() ==> (#[trigger] r@[i]).stream_id == stream_id && r@[i].packet_id
                == i && r@[i].payload@.len() <= chunk_size,
        forall|i: int| 0 <= i < r@.len() - 1 ==> (#[trigger] r@[i]).payload@.len() == chunk_size,
{
    let mut r: Vec<BodyRequest> = Vec::new();
    if data.len() == 0 {
        r.push(BodyRequest::new(stream_id, 0, Vec::new(), true));
        assert(r@.drop_last() =~= Seq::<BodyRequest>::empty());
        assert(joined(r@.drop_last()) == Seq::<u8>::empty());
        assert(r@.last().payload@ =~= Seq::<u8>::empty());
        assert(joined(r@) == joined(r@.drop_last()) + r@.last().payload@);
        assert(joined(r@) =~= Seq::<u8>::empty());
        assert(data@ =~= Seq::<u8>::empty());
        return r;
    }
    let mut sent: usize = 0;
    assert((chunk_size as nat - 1) as nat / chunk_size as nat == 0) by (nonlinear_arith)
        requires
            chunk_size > 0,
    ;
    assert(data@.subrange(0, 0) =~= Seq::<u8>::empty());
    while sent < data.len()
        invariant
            chunk_size > 0,
            sent <= data@.len(),
            data@.len() > 0,
            joined(r@) == data@.subrange(0, sent as int),
            r@.len() == (sent as nat + chunk_size as nat - 1) as nat / chunk_size as nat,
            sent < data@.len() ==> sent as nat == r@.len() * chunk_size,
            sent == data@.len() ==> r@.len() > 0 && r@.last().is_end,
            forall|i: int| 0 <= i < r@.len() - 1 ==> !(#[trigger] r@[i]).is_end,
            sent < data@.len() ==> forall|i: int| 0 <= i < r@.len() ==> !(#[trigger] r@[i]).is_end,
            forall|i: int|
                0 <= i < r@.len() ==> (#[trigger] r@[i]).stream_id == stream_id
                    && r@[i].packet_id == i && r@[i].payload@.len() <= chunk_size,
            forall|i: int| 0 <= i < r@.len() - 1 ==> (#[trigger] r@[i]).payload@.len() == chunk_size,
            sent < data@.len() ==> forall|i: int|
                0 <= i < r@.len() ==> (#[trigger] r@[i]).payload@.len() == chunk_size,
        decreases data@.len() - sent,
    {
        let remaining = data.len() - sent;
        let n = if remaining < chunk_size {
            remaining
        } else {
            chunk_size
        };
        let end = sent + n;
        let payload = copy_range(data, sent, end);
        let packet_id = r.len();
        let ghost old_r = r@;
        r.push(BodyRequest::new(stream_id, packet_id, payload, end == data.len()));
        proof {
            assert(r@.drop_last() =~= old_r);
            assert(data@.subrange(0, end as int) =~= data@.subrange(0, sent as int)
                + data@.subrange(sent as int, end as int));
            let k = old_r.len();
            let c = chunk_size as nat;
            assert(sent as nat == k * c);
            assert((end as nat + c - 1) as nat / c == k + 1) by {
                assert(end as nat + c - 1 == k * c + n + c - 1);
                assert(1 <= n <= c);
                lemma_div_bounds(k, c, (n + c - 1) as nat);
            }
            if end < data@.len() {
                assert(n == c);
                assert(end as nat == (k + 1) * c) by (nonlinear_arith)
                    requires
                        end as nat == sent as nat + n,
                        sent as nat == k * c,
                        n == c,
                ;
            }
        }
        sent = end;
    }
    proof {
        assert(data@.subrange(0, sent as int) =~= data@);
    }
    r
}

proof fn lemma_div_bounds(k: nat, c: nat, extra: nat)
    requires
        c > 0,
        c <= extra < 2 * c,
    ensures
        (k * c + extra) / c == k + 1,
{
    assert((k * c + extra) / c == k + 1) by (nonlinear_arith)
        requires
            c > 0,
            c <= extra < 2 * c,
    ;
}

/// The state of a body being read in chunks from a source whose total may be
/// known (`known_len`) or not.
pub struct BodyChunker {
    pub stream_id: u64,
    pub known_len: Option<usize>,
    pub sent: usize,
    pub packet_count: usize,
    pub finished: bool,
    pub streaming: bool,
}

impl BodyChunker {
    /// A chunker for a request body: its last chunk ends the stream.
    pub fn new(stream_id: u64, known_len: Option<usize>) -> (r: BodyChunker)
        ensures
            r.stream_id == stream_id,
            r.known_len == known_len,
            r.sent == 0,
            r.packet_count == 0,
            !r.finished,
            !r.streaming,
    {
        BodyChunker { stream_id, known_len, sent: 0, packet_count: 0, finished: false, streaming: false }
    }

    /// A chunker for a persistent stream: no chunk ends the stream.
    pub fn new_streaming(stream_id: u64) -> (r: BodyChunker)
        ensures
            r.stream_id == stream_id,
            r.known_len is None,
            r.sent == 0,
            r.packet_count == 0,
            !r.finished,
            r.streaming,
    {
        BodyChunker { stream_id, known_len: None, sent: 0, packet_count: 0, finished: false, streaming: true }
    }

    /// Turns the bytes of one read into a chunk. An empty read is the end of
    /// the source. A chunk ends the stream when it completes the known length,
    /// or, at the end of the source, as an empty final chunk; on a persistent
    /// stream no chunk does, and the end of the source yields nothing.
    pub fn on_read(&mut self, data: Vec<u8>) -> (r: Option<BodyRequest>)
        requires
            !old(self).finished,
            old(self).sent + data@.len() <= usize::MAX,
            old(self).packet_count < usize::MAX,
        ensures
            final(self).stream_id == old(self).stream_id,
            final(self).known_len == old(self).known_len,
            final(self).streaming == old(self).streaming,
            final(self).sent == old(self).sent + data@.len(),
            (data@.len() == 0 && old(self).streaming) ==> r is None && final(self).finished
                && final(self).packet_count == old(self).packet_count,
            !(data@.len() == 0 && old(self).streaming) ==> r is Some,
            r matches Some(c) ==> {
                &&& c.stream_id == old(self).stream_id
                &&& c.packet_id == old(self).packet_count
                &&& c.payload@ == data@
                &&& final(self).packet_count == old(self).packet_count + 1
                &&& c.is_end == final(self).finished
                &&& c.is_end == (!old(self).streaming && (data@.len() == 0 || (
                old(self).known_len matches Some(n) && old(self).sent + data@.len() >= n)))
            },
    {
        let n = data.len();
        if n == 0 && self.streaming {
            self.finished = true;
            return None;
        }
        let end = self.sent + n;
        let is_end = !self.streaming && (n == 0 || match self.known_len {
            Some(total) => end >= total,
            None => false,
        });
        let chunk = BodyRequest::new(self.stream_id, self.packet_count, data, is_end);
        self.sent = end;
        self.packet_count = self.packet_count + 1;
        self.finished = is_end;
        Some(chunk)
    }
}

} // verus!
