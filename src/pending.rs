use std::collections::HashMap;
use std::collections::HashSet;
use vstd::prelude::*;

use crate::body::copy_range;

verus! {

broadcast use vstd::std_specs::hash::group_hash_axioms;

/// Bytes waiting for flow-control credit on a stream, with the end flag of
/// the unit they came from.
pub struct PendingChunk {
    pub data: Vec<u8>,
    pub is_end: bool,
}

/// A pending chunk as its bytes and end flag.
pub type ChunkView = (Seq<u8>, bool);

pub open spec fn chunks_view(cs: Seq<PendingChunk>) -> Seq<ChunkView> {
    cs.map_values(|c: PendingChunk| (c.data@, c.is_end))
}

/// The bytes of a queue, head first.
pub open spec fn queued_bytes(q: Seq<ChunkView>) -> Seq<u8>
    decreases q.len(),
{
    if q.len() == 0 {
        Seq::empty()
    } else {
        q[0].0 + queued_bytes(q.drop_first())
    }
}

/// What the transport made of one offer of bytes on a stream.
#[derive(PartialEq, Eq, Structural, Debug, Clone, Copy)]
pub enum SendOutcome {
    /// The stream had no credit, so nothing was offered.
    NotWritable,
    /// The transport took this many bytes from the front.
    Accepted(usize),
    /// The transport reported the stream blocked.
    Blocked,
    /// The transport failed on this stream.
    Failed,
}

/// The per-stream queues of bytes that wait for credit, and the streams on
/// which the final unit has been taken in.
pub struct PendingBodies {
    pub queues: HashMap<u64, Vec<PendingChunk>>,
    pub ended: HashSet<u64>,
}

impl PendingBodies {
    /// The queue of a stream, head first; empty where nothing waits.
    pub open spec fn queue(&self, stream_id: u64) -> Seq<ChunkView> {
        if self.queues@.contains_key(stream_id) {
            chunks_view(self.queues@[stream_id]@)
        } else {
            Seq::empty()
        }
    }

    /// No queue is kept empty.
    pub open spec fn wf(&self) -> bool {
        forall|s: u64| #[trigger] self.queues@.contains_key(s) ==> self.queues@[s]@.len() > 0
    }

    pub open spec fn nothing_pending(&self) -> bool {
        forall|s: u64| #[trigger] self.queue(s).len() == 0
    }

    pub fn new() -> (r: PendingBodies)
        ensures
            r.wf(),
            r.nothing_pending(),
            r.ended@ == Set::<u64>::empty(),
    {
        PendingBodies { queues: HashMap::new(), ended: HashSet::new() }
    }

    /// True when no stream has bytes waiting: only then is new outbound work
    /// taken in, so that every stream keeps its order.
    pub fn is_empty(&self) -> (r: bool)
        requires
            self.wf(),
        ensures
            r == self.nothing_pending(),
    {
        let r = self.queues.is_empty();
        proof {
            if !r {
                let s = choose|s: u64| self.queues@.contains_key(s);
                assert(self.queue(s).len() > 0);
            } else {
                assert(self.queues@.dom() =~= Set::<u64>::empty());
                assert forall|s: u64| #[trigger] self.queue(s).len() == 0 by {
                    assert(!self.queues@.dom().contains(s));
                }
            }
        }
        r
    }

    /// True when a unit for this stream may still be taken in: no unit that
    /// ended the stream has been.
    pub fn accepts(&self, stream_id: u64) -> (r: bool)
        ensures
            r == !self.ended@.contains(stream_id),
    {
        !self.ended.contains(&stream_id)
    }

    /// The chunk at the head of a stream's queue: the next bytes to offer.
    pub fn head(&self, stream_id: u64) -> (r: Option<&PendingChunk>)
        requires
            self.wf(),
        ensures
            self.queue(stream_id).len() == 0 ==> r is None,
            self.queue(stream_id).len() > 0 ==> (r matches Some(c) && (c.data@, c.is_end)
                == self.queue(stream_id)[0]),
    {
        match self.queues.get(&stream_id) {
            Some(q) => {
                proof {
                    assert(chunks_view(q@)[0] == (q@[0].data@, q@[0].is_end));
                }
                Some(&q[0])
            },
            None => None,
        }
    }

    /// Puts bytes at the tail of a stream's queue.
    pub fn push(&mut self, stream_id: u64, data: Vec<u8>, is_end: bool)
        requires
            old(self).wf(),
        ensures
            final(self).wf(),
            final(self).queue(stream_id) == old(self).queue(stream_id).push((data@, is_end)),
            forall|s: u64| s != stream_id ==> #[trigger] final(self).queue(s) == old(self).queue(s),
            final(self).ended == old(self).ended,
    {
        let ghost before = old(self).queue(stream_id);
        let mut q = match self.queues.remove(&stream_id) {
            Some(q) => q,
            None => Vec::new(),
        };
        assert(chunks_view(q@) =~= before);
        q.push(PendingChunk { data, is_end });
        assert(chunks_view(q@) =~= before.push((data@, is_end)));
        self.queues.insert(stream_id, q);
        proof {
            assert forall|s: u64| s != stream_id implies #[trigger] self.queue(s) == old(self).queue(
                s,
            ) by {
                assert(self.queues@.contains_key(s) == old(self).queues@.contains_key(s));
            }
        }
    }

    /// Records that the transport took `accepted` bytes from the head of a
    /// stream's queue. The head leaves the queue once all its bytes are
    /// taken; otherwise the rest of it stays at the head. Returns whether the
    /// whole head was taken.
    pub fn consume(&mut self, stream_id: u64, accepted: usize) -> (r: bool)
        requires
            old(self).wf(),
            old(self).queue(stream_id).len() > 0,
            accepted <= old(self).queue(stream_id)[0].0.len(),
        ensures
            final(self).wf(),
            r == (accepted == old(self).queue(stream_id)[0].0.len()),
            r ==> final(self).queue(stream_id) == old(self).queue(stream_id).drop_first(),
            !r ==> final(self).queue(stream_id) == old(self).queue(stream_id).update(
                0,
                (
                    old(self).queue(stream_id)[0].0.subrange(
                        accepted as int,
                        old(self).queue(stream_id)[0].0.len() as int,
                    ),
                    old(self).queue(stream_id)[0].1,
                ),
            ),
            queued_bytes(final(self).queue(stream_id)) == queued_bytes(
                old(self).queue(stream_id),
            ).subrange(accepted as int, queued_bytes(old(self).queue(stream_id)).len() as int),
            forall|s: u64| s != stream_id ==> #[trigger] final(self).queue(s) == old(self).queue(s),
            final(self).ended == old(self).ended,
    {
        let ghost before = old(self).queue(stream_id);
        let mut q = self.queues.remove(&stream_id).unwrap();
        assert(chunks_view(q@) =~= before);
        let head_len = q[0].data.len();
        let whole = accepted == head_len;
        if whole {
            q.remove(0);
            assert(chunks_view(q@) =~= before.drop_first());
            if q.len() > 0 {
                self.queues.insert(stream_id, q);
            }
        } else {
            let rest = copy_range(q[0].data.as_slice(), accepted, head_len);
            let is_end = q[0].is_end;
            q.set(0, PendingChunk { data: rest, is_end });
            assert(chunks_view(q@) =~= before.update(
                0,
                (before[0].0.subrange(accepted as int, before[0].0.len() as int), before[0].1),
            ));
            self.queues.insert(stream_id, q);
        }
        proof {
            assert forall|s: u64| s != stream_id implies #[trigger] self.queue(s) == old(self).queue(
                s,
            ) by {
                assert(self.queues@.contains_key(s) == old(self).queues@.contains_key(s));
            }
            assert(before =~= seq![before[0]] + before.drop_first());
            assert(queued_bytes(before) == before[0].0 + queued_bytes(before.drop_first()));
            if whole {
                assert(self.queue(stream_id) =~= before.drop_first());
                assert(queued_bytes(before).subrange(accepted as int, queued_bytes(before).len() as int)
                    =~= queued_bytes(before.drop_first()));
            } else {
                let after = self.queue(stream_id);
                assert(after.drop_first() =~= before.drop_first());
                assert(queued_bytes(after) == after[0].0 + queued_bytes(after.drop_first()));
                assert(queued_bytes(after) =~= queued_bytes(before).subrange(
                    accepted as int,
                    queued_bytes(before).len() as int,
                ));
            }
        }
        whole
    }

    /// Takes in a body unit that was offered to the transport at once, given
    /// what became of the offer: the bytes that it did not take wait at the
    /// tail of the stream's queue; after a transport failure they are dropped.
    /// A unit with the end flag closes the stream to further units.
    pub fn take_in(&mut self, stream_id: u64, data: Vec<u8>, is_end: bool, outcome: SendOutcome)
        requires
            old(self).wf(),
            outcome matches SendOutcome::Accepted(v) ==> v <= data@.len(),
        ensures
            final(self).wf(),
            final(self).queue(stream_id) == match outcome {
                SendOutcome::Accepted(v) => if v == data@.len() {
                    old(self).queue(stream_id)
                } else {
                    old(self).queue(stream_id).push(
                        (data@.subrange(v as int, data@.len() as int), is_end),
                    )
                },
                SendOutcome::Failed => old(self).queue(stream_id),
                _ => old(self).queue(stream_id).push((data@, is_end)),
            },
            forall|s: u64| s != stream_id ==> #[trigger] final(self).queue(s) == old(self).queue(s),
            final(self).ended@ == if is_end {
                old(self).ended@.insert(stream_id)
            } else {
                old(self).ended@
            },
    {
        match outcome {
            SendOutcome::Accepted(v) => {
                if v < data.len() {
                    let rest = copy_range(data.as_slice(), v, data.len());
                    self.push(stream_id, rest, is_end);
                }
            },
            SendOutcome::Failed => {},
            _ => {
                self.push(stream_id, data, is_end);
            },
        }
        let ghost mid = *self;
        if is_end {
            self.ended.insert(stream_id);
        }
        assert forall|s: u64| #[trigger] self.queue(s) == mid.queue(s) by {}
    }
}

/// Bytes leave a stream's queue in the order they entered it: putting a chunk
/// at the tail adds its bytes after all the bytes already waiting, so the
/// transport is offered those first.
pub proof fn lemma_pending_fifo(q: Seq<ChunkView>, c: ChunkView)
    ensures
        queued_bytes(q.push(c)) == queued_bytes(q) + c.0,
        q.len() > 0 ==> q.push(c)[0] == q[0],
    decreases q.len(),
{
    if q.len() == 0 {
        assert(q.push(c).drop_first() =~= Seq::<ChunkView>::empty());
        assert(queued_bytes(Seq::<ChunkView>::empty()) == Seq::<u8>::empty());
        assert(q.push(c)[0] == c);
        assert(queued_bytes(q.push(c)) == c.0 + queued_bytes(q.push(c).drop_first()));
        assert(queued_bytes(q.push(c)) =~= c.0);
        assert(queued_bytes(q) + c.0 =~= c.0);
    } else {
        assert(q.push(c).drop_first() =~= q.drop_first().push(c));
        lemma_pending_fifo(q.drop_first(), c);
        assert(queued_bytes(q.push(c)) =~= queued_bytes(q) + c.0);
    }
}

} // verus!
