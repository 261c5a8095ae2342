//! Send-side buffering: a per-channel bounded holding area for buffers that
//! await acknowledgment. The queue assigns monotonic sequence ids at enqueue
//! time, exposes a round-robin retransmission cursor, and evicts acknowledged
//! buffers only as a contiguous prefix from the head ("in-order eviction").

use vstd::prelude::*;

use std::collections::HashSet;
use std::collections::VecDeque;

use crate::channel::Buffer;
use crate::channel::Channel;

verus! {

broadcast use vstd::std_specs::hash::group_hash_axioms;

/// Capacity of each per-channel send queue: a `try_push` beyond this bound is
/// refused, which is the send-side backpressure signal.
pub const MAX_BUFFERS_PER_CHANNEL: usize = 10;

/// Send-side state of one channel: the bounded FIFO of unacknowledged
/// buffers, the retransmission cursor, the sequence counter, and the set of
/// acknowledged ids not yet evictable because a predecessor is still pending.
pub struct SendChannelState {
    pub channel_id: String,
    pub queue: VecDeque<Buffer>,
    pub schedule_cursor: usize,
    pub next_buffer_id: u64,
    pub pending_acks: HashSet<u64>,
}

impl SendChannelState {
    /// Sequence id of the buffer at the head of the queue; ids in the queue
    /// are consecutive, ending just below `next_buffer_id`.
    pub open spec fn first_queued_id(&self) -> int {
        self.next_buffer_id - self.queue@.len()
    }

    /// `id` has been acknowledged but not yet evicted.
    pub open spec fn acked(&self, id: u64) -> bool {
        self.pending_acks@.contains(id)
    }

    pub open spec fn wf(&self) -> bool {
        &&& self.queue@.len() <= MAX_BUFFERS_PER_CHANNEL
        &&& self.schedule_cursor <= self.queue@.len()
        &&& self.queue@.len() <= self.next_buffer_id
        &&& forall|i: int|
            0 <= i < self.queue@.len() ==> (#[trigger] self.queue@[i]).buffer_id
                == self.first_queued_id() + i
        &&& forall|i: int|
            0 <= i < self.queue@.len() ==> (#[trigger] self.queue@[i]).channel_id@
                == self.channel_id@
    }
}

/// Length of the contiguous acknowledged prefix of `q`: the buffers that an
/// in-order eviction pass removes, given the acknowledged-id set `acks`.
pub open spec fn evict_count(q: Seq<Buffer>, acks: Set<u64>) -> nat
    decreases q.len(),
{
    if q.len() > 0 && acks.contains(q[0].buffer_id) {
        1 + evict_count(q.skip(1), acks)
    } else {
        0
    }
}

/// In a well-formed send channel the queued buffer ids are consecutive and
/// strictly increasing in queue order — sequence ids are handed out in call
/// order and never reused — and all of them lie below the channel's sequence
/// counter.
pub proof fn lemma_queue_ids_monotonic(s: SendChannelState)
    requires
        s.wf(),
    ensures
        forall|i: int, j: int|
            0 <= i < j < s.queue@.len() ==> (#[trigger] s.queue@[i]).buffer_id < (
            #[trigger] s.queue@[j]).buffer_id,
        forall|i: int|
            0 <= i < s.queue@.len() ==> (#[trigger] s.queue@[i]).buffer_id < s.next_buffer_id,
{
}

/// An eviction pass removes only a fully acknowledged contiguous prefix:
/// every buffer it removes was acknowledged, and the first survivor, if there
/// is one, was not — an acknowledgment behind an unacknowledged predecessor
/// has no visible effect.
pub proof fn lemma_evicted_prefix_acknowledged(q: Seq<Buffer>, acks: Set<u64>)
    ensures
        evict_count(q, acks) <= q.len(),
        forall|i: int| 0 <= i < evict_count(q, acks) ==> acks.contains((#[trigger] q[i]).buffer_id),
        evict_count(q, acks) < q.len() ==> !acks.contains(
            q[evict_count(q, acks) as int].buffer_id,
        ),
    decreases q.len(),
{
    if q.len() > 0 && acks.contains(q[0].buffer_id) {
        lemma_evicted_prefix_acknowledged(q.skip(1), acks);
        assert forall|i: int| 0 <= i < evict_count(q, acks) implies acks.contains(
            (#[trigger] q[i]).buffer_id,
        ) by {
            if i > 0 {
                assert(q.skip(1)[i - 1] == q[i]);
            }
        }
        if evict_count(q, acks) < q.len() {
            assert(q.skip(1)[evict_count(q.skip(1), acks) as int] == q[evict_count(
                q,
                acks,
            ) as int]);
        }
    }
}

/// The aggregated send queues of a fixed channel set, one slot per channel,
/// looked up by channel id.
pub struct BufferQueue {
    pub channels: Vec<SendChannelState>,
}

impl BufferQueue {
    pub open spec fn wf(&self) -> bool {
        &&& forall|i: int| 0 <= i < self.channels@.len() ==> (#[trigger] self.channels@[i]).wf()
        &&& forall|i: int, j: int|
            0 <= i < j < self.channels@.len() ==> (#[trigger] self.channels@[i]).channel_id@ != (
            #[trigger] self.channels@[j]).channel_id@
    }

    /// `id` names a channel of the set this queue was built from. Operations
    /// on an unregistered id are a construction-time error, excluded here.
    pub open spec fn is_registered(&self, id: Seq<char>) -> bool {
        exists|i: int|
            0 <= i < self.channels@.len() && (#[trigger] self.channels@[i]).channel_id@ == id
    }

    /// The slot of the channel named `id`; unique in a well-formed queue.
    pub open spec fn index_of(&self, id: Seq<char>) -> int {
        choose|i: int|
            0 <= i < self.channels@.len() && (#[trigger] self.channels@[i]).channel_id@ == id
    }

    /// Builds one empty send queue per channel. Channel ids are assumed
    /// unique across the set; every sequence counter starts at zero.
    pub fn new(channels: Vec<Channel>) -> (q: BufferQueue)
        requires
            forall|i: int, j: int|
                0 <= i < j < channels@.len() ==> channels@[i].spec_channel_id()
                    != channels@[j].spec_channel_id(),
        ensures
            q.wf(),
            q.channels@.len() == channels@.len(),
            forall|i: int|
                0 <= i < channels@.len() ==> {
                    let s = #[trigger] q.channels@[i];
                    &&& s.channel_id@ == channels@[i].spec_channel_id()
                    &&& s.queue@.len() == 0
                    &&& s.schedule_cursor == 0
                    &&& s.next_buffer_id == 0
                    &&& s.pending_acks@ == Set::<u64>::empty()
                },
    {
        let mut states: Vec<SendChannelState> = Vec::new();
        let mut i: usize = 0;
        while i < channels.len()
            invariant
                i <= channels@.len(),
                states@.len() == i,
                forall|j: int|
                    0 <= j < i ==> {
                        let s = #[trigger] states@[j];
                        &&& s.channel_id@ == channels@[j].spec_channel_id()
                        &&& s.queue@.len() == 0
                        &&& s.schedule_cursor == 0
                        &&& s.next_buffer_id == 0
                        &&& s.pending_acks@ == Set::<u64>::empty()
                    },
            decreases channels@.len() - i,
        {
            let id = channels[i].get_channel_id().clone();
            states.push(
                SendChannelState {
                    channel_id: id,
                    queue: VecDeque::new(),
                    schedule_cursor: 0,
                    next_buffer_id: 0,
                    pending_acks: HashSet::new(),
                },
            );
            i += 1;
        }
        BufferQueue { channels: states }
    }

    /// Slot lookup by channel id.
    fn find_channel(&self, channel_id: &String) -> (idx: usize)
        requires
            self.wf(),
            self.is_registered(channel_id@),
        ensures
            idx < self.channels@.len(),
            self.channels@[idx as int].channel_id@ == channel_id@,
            idx == self.index_of(channel_id@),
    {
        let mut i: usize = 0;
        while i < self.channels.len()
            invariant
                self.wf(),
                self.is_registered(channel_id@),
                i <= self.channels@.len(),
                forall|j: int|
                    0 <= j < i ==> (#[trigger] self.channels@[j]).channel_id@ != channel_id@,
            decreases self.channels@.len() - i,
        {
            if self.channels[i].channel_id == *channel_id {
                proof {
                    let w = self.index_of(channel_id@);
                    assert(0 <= w < self.channels@.len() && self.channels@[w].channel_id@
                        == channel_id@);
                }
                return i;
            }
            i += 1;
        }
        proof {
            let w = self.index_of(channel_id@);
            assert(0 <= w < self.channels@.len() && self.channels@[w].channel_id@ == channel_id@);
            assert(false);
        }
        unreached()
    }

    /// Appends a payload to the channel's queue unless the queue is at
    /// capacity. On success the payload is stamped with the channel's next
    /// sequence id and the sequence counter moves up by exactly one; on
    /// refusal (the backpressure signal) nothing changes and the payload is
    /// discarded, the caller being expected to retry.
    pub fn try_push(&mut self, channel_id: &String, payload: Vec<u8>) -> (pushed: bool)
        requires
            old(self).wf(),
            old(self).is_registered(channel_id@),
            old(self).channels@[old(self).index_of(channel_id@)].next_buffer_id < u64::MAX,
        ensures
            final(self).wf(),
            final(self).channels@.len() == old(self).channels@.len(),
            ({
                let c = old(self).index_of(channel_id@);
                let s0 = old(self).channels@[c];
                let s1 = final(self).channels@[c];
                &&& forall|i: int|
                    0 <= i < final(self).channels@.len() && i != c ==> final(self).channels@[i]
                        == old(self).channels@[i]
                &&& pushed == (s0.queue@.len() < MAX_BUFFERS_PER_CHANNEL)
                &&& if pushed {
                    &&& s1.queue@ == s0.queue@.push(
                        (Buffer {
                            channel_id: s0.channel_id,
                            buffer_id: s0.next_buffer_id,
                            payload,
                        }),
                    )
                    &&& s1.next_buffer_id == s0.next_buffer_id + 1
                    &&& s1.schedule_cursor == s0.schedule_cursor
                    &&& s1.pending_acks == s0.pending_acks
                    &&& s1.channel_id == s0.channel_id
                } else {
                    s1 == s0
                }
            }),
    {
        let c = self.find_channel(channel_id);
        let ghost s0 = self.channels@[c as int];
        let st = &mut self.channels[c];
        if st.queue.len() == MAX_BUFFERS_PER_CHANNEL {
            return false;
        }
        let id = st.next_buffer_id;
        let buf = Buffer { channel_id: st.channel_id.clone(), buffer_id: id, payload };
        st.queue.push_back(buf);
        st.next_buffer_id = id + 1;
        true
    }

    /// The next retransmission candidate: a copy of the buffer at the
    /// schedule cursor, the cursor then advancing by one. Yields nothing once
    /// the cursor has reached the end of the queue (every queued buffer has
    /// been offered since the last eviction); offering never removes — only
    /// an acknowledgment does, via `request_pop`.
    pub fn schedule_next(&mut self, channel_id: &String) -> (next: Option<Buffer>)
        requires
            old(self).wf(),
            old(self).is_registered(channel_id@),
        ensures
            final(self).wf(),
            final(self).channels@.len() == old(self).channels@.len(),
            ({
                let c = old(self).index_of(channel_id@);
                let s0 = old(self).channels@[c];
                let s1 = final(self).channels@[c];
                &&& forall|i: int|
                    0 <= i < final(self).channels@.len() && i != c ==> final(self).channels@[i]
                        == old(self).channels@[i]
                &&& s1.queue == s0.queue
                &&& s1.next_buffer_id == s0.next_buffer_id
                &&& s1.pending_acks == s0.pending_acks
                &&& s1.channel_id == s0.channel_id
                &&& if s0.schedule_cursor < s0.queue@.len() {
                    &&& s1.schedule_cursor == s0.schedule_cursor + 1
                    &&& next is Some
                    &&& next->Some_0.channel_id == s0.queue@[s0.schedule_cursor as int].channel_id
                    &&& next->Some_0.buffer_id == s0.queue@[s0.schedule_cursor as int].buffer_id
                    &&& next->Some_0.payload@ == s0.queue@[s0.schedule_cursor as int].payload@
                } else {
                    &&& s1.schedule_cursor == s0.schedule_cursor
                    &&& next is None
                }
            }),
    {
        let c = self.find_channel(channel_id);
        let st = &mut self.channels[c];
        if st.schedule_cursor >= st.queue.len() {
            return None;
        }
        let buf = st.queue[st.schedule_cursor].clone();
        st.schedule_cursor = st.schedule_cursor + 1;
        Some(buf)
    }

    /// Records `buffer_id` as acknowledged, then evicts the acknowledged
    /// prefix of the queue: while the head buffer's id is acknowledged, the
    /// head is removed, its ack record cleared, and the schedule cursor
    /// pulled back one step (stopping at zero). An ack for a buffer that is
    /// not yet at the head is retained but has no visible effect until its
    /// predecessors are acknowledged too, so the queue only ever discards a
    /// fully-acknowledged contiguous prefix.
    pub fn request_pop(&mut self, channel_id: &String, buffer_id: u64)
        requires
            old(self).wf(),
            old(self).is_registered(channel_id@),
        ensures
            final(self).wf(),
            final(self).channels@.len() == old(self).channels@.len(),
            ({
                let c = old(self).index_of(channel_id@);
                let s0 = old(self).channels@[c];
                let s1 = final(self).channels@[c];
                let acks1 = s0.pending_acks@.insert(buffer_id);
                let k = evict_count(s0.queue@, acks1) as int;
                &&& forall|i: int|
                    0 <= i < final(self).channels@.len() && i != c ==> final(self).channels@[i]
                        == old(self).channels@[i]
                &&& s1.queue@ == s0.queue@.skip(k)
                &&& s1.next_buffer_id == s0.next_buffer_id
                &&& s1.channel_id == s0.channel_id
                &&& s1.schedule_cursor == (if s0.schedule_cursor >= k {
                    s0.schedule_cursor - k
                } else {
                    0
                })
                &&& forall|x: u64|
                    #[trigger] s1.acked(x) <==> (acks1.contains(x) && !(s0.first_queued_id() <= x
                        < s0.first_queued_id() + k))
            }),
    {
        let c = self.find_channel(channel_id);
        let ghost s0 = self.channels@[c as int];
        let st = &mut self.channels[c];
        st.pending_acks.insert(buffer_id);
        let ghost acks1 = st.pending_acks@;
        let ghost q0 = st.queue@;
        let ghost cur0 = s0.schedule_cursor as int;
        let ghost first0 = s0.first_queued_id();
        let ghost mut e: int = 0;
        proof {
            assert(q0.skip(0) =~= q0);
        }
        loop
            invariant
                0 <= e <= q0.len(),
                st.queue@ == q0.skip(e),
                st.channel_id == s0.channel_id,
                st.next_buffer_id == s0.next_buffer_id,
                q0.len() <= MAX_BUFFERS_PER_CHANNEL,
                q0.len() <= s0.next_buffer_id,
                first0 == s0.next_buffer_id - q0.len(),
                cur0 <= q0.len(),
                forall|i: int| 0 <= i < q0.len() ==> (#[trigger] q0[i]).buffer_id == first0 + i,
                forall|i: int|
                    0 <= i < q0.len() ==> (#[trigger] q0[i]).channel_id@ == s0.channel_id@,
                st.schedule_cursor == (if cur0 >= e {
                    cur0 - e
                } else {
                    0
                }),
                forall|x: u64|
                    #[trigger] st.pending_acks@.contains(x) <==> (acks1.contains(x) && !(first0
                        <= x < first0 + e)),
                evict_count(q0, acks1) == e + evict_count(q0.skip(e), acks1),
            ensures
                evict_count(q0.skip(e), acks1) == 0,
            decreases q0.len() - e,
        {
            if st.queue.len() == 0 {
                proof {
                    assert(q0.skip(e).len() == 0);
                }
                break;
            }
            let head_id = st.queue[0].buffer_id;
            proof {
                assert(st.queue@[0] == q0[e]);
                assert(head_id == first0 + e);
            }
            if !st.pending_acks.contains(&head_id) {
                proof {
                    assert(!acks1.contains(q0.skip(e)[0].buffer_id));
                }
                break;
            }
            st.queue.pop_front();
            st.pending_acks.remove(&head_id);
            if st.schedule_cursor > 0 {
                st.schedule_cursor = st.schedule_cursor - 1;
            }
            proof {
                assert(acks1.contains(q0.skip(e)[0].buffer_id));
                assert(q0.skip(e).skip(1) =~= q0.skip(e + 1));
                assert(evict_count(q0.skip(e), acks1) == 1 + evict_count(q0.skip(e + 1), acks1));
                assert(st.queue@ =~= q0.skip(e + 1));
                e = e + 1;
            }
        }
        proof {
            assert(evict_count(q0, acks1) == e);
            assert(st.queue@ =~= q0.skip(evict_count(q0, acks1) as int));
        }
    }
}

} // verus!
