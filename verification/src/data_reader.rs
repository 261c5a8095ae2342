//! Receive-side dispatching: deduplicates and reorders the buffers arriving
//! on each owned channel, acknowledges them, and publishes the payloads to a
//! single bounded, in-order output stream shared by all channels.
//!
//! Per channel the dispatcher keeps a watermark (here stored as
//! `next_expected`, the watermark plus one, so that the initial watermark of
//! minus one needs no signed arithmetic) and an out-of-order holding map. An
//! arriving buffer at or below the watermark, or already held, is a redundant
//! delivery: it is discarded and its acknowledgment re-emitted. Any other
//! buffer is held, and the contiguous run starting at the watermark is then
//! drained to the output stream — stopping the moment the stream is full,
//! which is the receive-side backpressure point.

use vstd::prelude::*;

use std::collections::HashMap;
use std::collections::VecDeque;

use crate::channel::AckMessage;
use crate::channel::Buffer;
use crate::channel::Channel;

verus! {

broadcast use vstd::std_specs::hash::group_hash_axioms;

/// Construction-time configuration of a [`DataReader`]:
/// `output_queue_size` caps the shared output stream and is the
/// receive-side backpressure point; it must be positive.
#[derive(Clone)]
pub struct DataReaderConfig {
    pub output_queue_size: usize,
}

impl DataReaderConfig {
    pub fn new(output_queue_size: usize) -> (c: Self)
        requires
            output_queue_size >= 1,
        ensures
            c.output_queue_size == output_queue_size,
    {
        DataReaderConfig { output_queue_size }
    }
}

/// The kind of handler a scheduler is managing through the capability
/// contract; a closed but extensible enumeration.
#[non_exhaustive]
pub enum IOHandlerType {
    DataReader,
    DataWriter,
}

/// Receive-side state of one channel: the delivery watermark (as
/// `next_expected`, its successor) and the out-of-order holding map for
/// buffers received ahead of it.
pub struct RecvChannelState {
    pub channel_id: String,
    pub next_expected: u64,
    pub out_of_order: HashMap<u64, Buffer>,
}

impl RecvChannelState {
    /// Highest buffer id such that it and all lower ids have been delivered;
    /// minus one while nothing has been delivered yet.
    pub open spec fn watermark(&self) -> int {
        self.next_expected - 1
    }

    pub open spec fn wf(&self) -> bool {
        &&& forall|k: u64|
            #[trigger] self.out_of_order@.contains_key(k) ==> self.next_expected <= k < u64::MAX
        &&& forall|k: u64|
            #[trigger] self.out_of_order@.contains_key(k) ==> self.out_of_order@[k].buffer_id == k
    }
}

/// How many buffers a drain pass delivers: the length of the contiguous run
/// of held ids starting at `next`, capped by the spare room of the output
/// stream.
pub open spec fn drain_count(pending: Map<u64, Buffer>, next: u64, room: nat) -> nat
    decreases room,
{
    if room > 0 && pending.contains_key(next) && next < u64::MAX {
        1 + drain_count(pending, (next + 1) as u64, (room - 1) as nat)
    } else {
        0
    }
}

/// The receive state `s1`, output stream `out1` and acknowledgment list
/// `acks` that result from draining a channel whose held buffers were `m`,
/// whose next expected id was `n` and whose identity is `cid`, into an output
/// stream that held `out0` and is capped at `cap`.
pub open spec fn drain_applies(
    m: Map<u64, Buffer>,
    n: u64,
    out0: Seq<Vec<u8>>,
    cap: nat,
    s1: RecvChannelState,
    out1: Seq<Vec<u8>>,
    acks: Seq<AckMessage>,
    cid: String,
) -> bool {
    let d = drain_count(m, n, (cap - out0.len()) as nat) as int;
    &&& s1.channel_id == cid
    &&& s1.next_expected == n + d
    &&& forall|k: u64|
        #[trigger] s1.out_of_order@.contains_key(k) <==> (m.contains_key(k) && !(n <= k < n + d))
    &&& forall|k: u64| #[trigger] s1.out_of_order@.contains_key(k) ==> s1.out_of_order@[k] == m[k]
    &&& out1 == out0 + Seq::new(d as nat, |i: int| m[((n + i) as u64)].payload)
    &&& acks.len() == d
    &&& forall|i: int|
        0 <= i < d ==> (#[trigger] acks[i]).channel_id == cid && acks[i].buffer_id == n + i
}

/// The channel state `s1`, output stream `out1` and acknowledgment list
/// `acks` that result from handling one arriving buffer `b` on a channel in
/// state `s0`, with the shared output stream holding `out0` and capped at
/// `cap`. A redundant delivery (id at or below the watermark, or already
/// held) changes nothing and re-emits exactly one acknowledgment; any other
/// buffer is held and the contiguous run at the watermark is drained.
pub open spec fn receive_applies(
    s0: RecvChannelState,
    out0: Seq<Vec<u8>>,
    cap: nat,
    b: Buffer,
    s1: RecvChannelState,
    out1: Seq<Vec<u8>>,
    acks: Seq<AckMessage>,
) -> bool {
    if b.buffer_id < s0.next_expected || s0.out_of_order@.contains_key(b.buffer_id) {
        &&& s1 == s0
        &&& out1 == out0
        &&& acks.len() == 1
        &&& acks[0].channel_id == s0.channel_id
        &&& acks[0].buffer_id == b.buffer_id
    } else {
        drain_applies(
            s0.out_of_order@.insert(b.buffer_id, b),
            s0.next_expected,
            out0,
            cap,
            s1,
            out1,
            acks,
            s0.channel_id,
        )
    }
}

/// A drain pass delivers at most as many buffers as the output stream has
/// spare room, so the stream never grows past its capacity: the receive-side
/// backpressure bound.
pub proof fn lemma_drain_count_le_room(pending: Map<u64, Buffer>, next: u64, room: nat)
    ensures
        drain_count(pending, next, room) <= room,
    decreases room,
{
    if room > 0 && pending.contains_key(next) && next < u64::MAX {
        lemma_drain_count_le_room(pending, (next + 1) as u64, (room - 1) as nat);
    }
}

/// The watermark of a channel never decreases: one receive step either leaves
/// it unchanged (redundant delivery) or moves it up by the number of buffers
/// drained to the output stream.
pub proof fn lemma_watermark_monotonic(
    s0: RecvChannelState,
    out0: Seq<Vec<u8>>,
    cap: nat,
    b: Buffer,
    s1: RecvChannelState,
    out1: Seq<Vec<u8>>,
    acks: Seq<AckMessage>,
)
    requires
        receive_applies(s0, out0, cap, b, s1, out1, acks),
    ensures
        s1.next_expected >= s0.next_expected,
        s1.watermark() >= s0.watermark(),
{
}

/// Within one channel, drained payloads enter the output stream in strictly
/// increasing buffer-id order: the acknowledgments of one receive step carry
/// consecutive ids starting at the old watermark's successor.
pub proof fn lemma_output_in_id_order(
    s0: RecvChannelState,
    out0: Seq<Vec<u8>>,
    cap: nat,
    b: Buffer,
    s1: RecvChannelState,
    out1: Seq<Vec<u8>>,
    acks: Seq<AckMessage>,
)
    requires
        receive_applies(s0, out0, cap, b, s1, out1, acks),
        !(b.buffer_id < s0.next_expected || s0.out_of_order@.contains_key(b.buffer_id)),
    ensures
        forall|i: int, j: int|
            0 <= i < j < acks.len() ==> (#[trigger] acks[i]).buffer_id < (
            #[trigger] acks[j]).buffer_id,
        forall|i: int| 0 <= i < acks.len() ==> (#[trigger] acks[i]).buffer_id == s0.next_expected + i,
        out1.len() == out0.len() + acks.len(),
{
}

/// A buffer delivered twice reaches the output stream at most once. After the
/// first handling, the buffer's id is at or below the watermark or still held
/// out of order, so handling the same buffer again changes neither the
/// channel state nor the output stream and re-emits exactly one
/// acknowledgment for its id.
pub proof fn lemma_duplicate_delivery(
    s0: RecvChannelState,
    out0: Seq<Vec<u8>>,
    cap: nat,
    b: Buffer,
    s1: RecvChannelState,
    out1: Seq<Vec<u8>>,
    acks1: Seq<AckMessage>,
    s2: RecvChannelState,
    out2: Seq<Vec<u8>>,
    acks2: Seq<AckMessage>,
)
    requires
        b.buffer_id < u64::MAX,
        receive_applies(s0, out0, cap, b, s1, out1, acks1),
        receive_applies(s1, out1, cap, b, s2, out2, acks2),
    ensures
        s2 == s1,
        out2 == out1,
        acks2.len() == 1,
        acks2[0].buffer_id == b.buffer_id,
        acks2[0].channel_id == s1.channel_id,
{
    if b.buffer_id < s0.next_expected || s0.out_of_order@.contains_key(b.buffer_id) {
        assert(s1 == s0);
    } else {
        let m1 = s0.out_of_order@.insert(b.buffer_id, b);
        let n0 = s0.next_expected;
        let d = drain_count(m1, n0, (cap - out0.len()) as nat) as int;
        if n0 <= b.buffer_id < n0 + d {
            assert(b.buffer_id < s1.next_expected);
        } else {
            assert(m1.contains_key(b.buffer_id));
            assert(s1.out_of_order@.contains_key(b.buffer_id));
        }
    }
    assert(b.buffer_id < s1.next_expected || s1.out_of_order@.contains_key(b.buffer_id));
}

/// The receive dispatcher of one endpoint: per-channel dedup/reorder state
/// plus the single bounded output stream shared by all its channels.
pub struct DataReader {
    pub name: String,
    pub job_name: String,
    pub channels: Vec<Channel>,
    pub states: Vec<RecvChannelState>,
    pub out_queue: VecDeque<Vec<u8>>,
    pub config: DataReaderConfig,
}

impl DataReader {
    pub open spec fn wf(&self) -> bool {
        &&& self.states@.len() == self.channels@.len()
        &&& forall|i: int| 0 <= i < self.states@.len() ==> (#[trigger] self.states@[i]).wf()
        &&& forall|i: int|
            0 <= i < self.states@.len() ==> (#[trigger] self.states@[i]).channel_id@
                == self.channels@[i].spec_channel_id()
        &&& forall|i: int, j: int|
            0 <= i < j < self.states@.len() ==> (#[trigger] self.states@[i]).channel_id@ != (
            #[trigger] self.states@[j]).channel_id@
        &&& self.out_queue@.len() <= self.config.output_queue_size
        &&& self.config.output_queue_size >= 1
    }

    /// `id` names a channel of the set this dispatcher owns. Operations on an
    /// unregistered id are a construction-time error, excluded here.
    pub open spec fn is_registered(&self, id: Seq<char>) -> bool {
        exists|i: int|
            0 <= i < self.states@.len() && (#[trigger] self.states@[i]).channel_id@ == id
    }

    /// The slot of the channel named `id`; unique in a well-formed reader.
    pub open spec fn index_of(&self, id: Seq<char>) -> int {
        choose|i: int|
            0 <= i < self.states@.len() && (#[trigger] self.states@[i]).channel_id@ == id
    }

    /// Builds a dispatcher over the given channel set: every watermark starts
    /// at minus one, every holding map and the output stream start empty.
    /// Channel ids are assumed unique across the set.
    pub fn new(
        name: String,
        job_name: String,
        data_reader_config: DataReaderConfig,
        channels: Vec<Channel>,
    ) -> (r: DataReader)
        requires
            data_reader_config.output_queue_size >= 1,
            forall|i: int, j: int|
                0 <= i < j < channels@.len() ==> channels@[i].spec_channel_id()
                    != channels@[j].spec_channel_id(),
        ensures
            r.wf(),
            r.name == name,
            r.job_name == job_name,
            r.channels == channels,
            r.config == data_reader_config,
            r.out_queue@.len() == 0,
            r.states@.len() == channels@.len(),
            forall|i: int|
                0 <= i < channels@.len() ==> {
                    let s = #[trigger] r.states@[i];
                    &&& s.channel_id@ == channels@[i].spec_channel_id()
                    &&& s.next_expected == 0
                    &&& s.out_of_order@ == Map::<u64, Buffer>::empty()
                },
    {
        let mut states: Vec<RecvChannelState> = Vec::new();
        let mut i: usize = 0;
        while i < channels.len()
            invariant
                i <= channels@.len(),
                states@.len() == i,
                forall|j: int|
                    0 <= j < i ==> {
                        let s = #[trigger] states@[j];
                        &&& s.channel_id@ == channels@[j].spec_channel_id()
                        &&& s.next_expected == 0
                        &&& s.out_of_order@ == Map::<u64, Buffer>::empty()
                    },
            decreases channels@.len() - i,
        {
            let id = channels[i].get_channel_id().clone();
            states.push(
                RecvChannelState { channel_id: id, next_expected: 0, out_of_order: HashMap::new() },
            );
            i += 1;
        }
        DataReader {
            name,
            job_name,
            channels,
            states,
            out_queue: VecDeque::new(),
            config: data_reader_config,
        }
    }

    /// Slot lookup by channel id.
    fn find_channel(&self, channel_id: &String) -> (idx: usize)
        requires
            self.wf(),
            self.is_registered(channel_id@),
        ensures
            idx < self.states@.len(),
            self.states@[idx as int].channel_id@ == channel_id@,
            idx == self.index_of(channel_id@),
    {
        let mut i: usize = 0;
        while i < self.states.len()
            invariant
                self.wf(),
                self.is_registered(channel_id@),
                i <= self.states@.len(),
                forall|j: int|
                    0 <= j < i ==> (#[trigger] self.states@[j]).channel_id@ != channel_id@,
            decreases self.states@.len() - i,
        {
            if self.states[i].channel_id == *channel_id {
                proof {
                    let w = self.index_of(channel_id@);
                    assert(0 <= w < self.states@.len() && self.states@[w].channel_id@
                        == channel_id@);
                }
                return i;
            }
            i += 1;
        }
        proof {
            let w = self.index_of(channel_id@);
            assert(0 <= w < self.states@.len() && self.states@[w].channel_id@ == channel_id@);
            assert(false);
        }
        unreached()
    }

    /// Non-blocking pop of the oldest delivered payload from the shared
    /// output stream; the consumer is expected to poll.
    pub fn read_bytes(&mut self) -> (r: Option<Vec<u8>>)
        requires
            old(self).wf(),
        ensures
            final(self).wf(),
            final(self).states == old(self).states,
            final(self).name == old(self).name,
            final(self).job_name == old(self).job_name,
            final(self).channels == old(self).channels,
            final(self).config == old(self).config,
            match r {
                Some(p) => {
                    &&& old(self).out_queue@.len() > 0
                    &&& p == old(self).out_queue@[0]
                    &&& final(self).out_queue@ == old(self).out_queue@.skip(1)
                },
                None => {
                    &&& old(self).out_queue@.len() == 0
                    &&& final(self).out_queue@ == old(self).out_queue@
                },
            },
    {
        let r = self.out_queue.pop_front();
        proof {
            if old(self).out_queue@.len() > 0 {
                assert(self.out_queue@ =~= old(self).out_queue@.skip(1));
            }
        }
        r
    }

    /// Delivers to the output stream the contiguous run of held buffers that
    /// starts at the channel's watermark, oldest first, acknowledging each,
    /// until the run is exhausted or the output stream is full (the
    /// backpressure point: remaining entries stay held for a later sweep).
    pub fn drain_ready(&mut self, channel_id: &String) -> (acks: Vec<AckMessage>)
        requires
            old(self).wf(),
            old(self).is_registered(channel_id@),
        ensures
            final(self).wf(),
            final(self).name == old(self).name,
            final(self).job_name == old(self).job_name,
            final(self).channels == old(self).channels,
            final(self).config == old(self).config,
            final(self).states@.len() == old(self).states@.len(),
            ({
                let c = old(self).index_of(channel_id@);
                let s0 = old(self).states@[c];
                &&& forall|i: int|
                    0 <= i < final(self).states@.len() && i != c ==> final(self).states@[i] == old(
                        self,
                    ).states@[i]
                &&& drain_applies(
                    s0.out_of_order@,
                    s0.next_expected,
                    old(self).out_queue@,
                    old(self).config.output_queue_size as nat,
                    final(self).states@[c],
                    final(self).out_queue@,
                    acks@,
                    s0.channel_id,
                )
            }),
    {
        let c = self.find_channel(channel_id);
        let ghost s0 = self.states@[c as int];
        let ghost m0 = s0.out_of_order@;
        let ghost n0 = s0.next_expected;
        let ghost out0 = self.out_queue@;
        let ghost cap = self.config.output_queue_size as nat;
        let ghost r0 = (cap - out0.len()) as nat;
        let mut acks: Vec<AckMessage> = Vec::new();
        let ghost mut j: int = 0;
        loop
            invariant
                0 <= j <= r0,
                c < self.states@.len(),
                self.states@.len() == old(self).states@.len(),
                self.name == old(self).name,
                self.job_name == old(self).job_name,
                self.channels == old(self).channels,
                self.config == old(self).config,
                forall|i: int|
                    0 <= i < self.states@.len() && i != c ==> self.states@[i] == old(
                        self,
                    ).states@[i],
                self.states@[c as int].channel_id == s0.channel_id,
                self.states@[c as int].next_expected == n0 + j,
                n0 + j <= u64::MAX,
                forall|k: u64|
                    #[trigger] self.states@[c as int].out_of_order@.contains_key(k) <==> (
                    m0.contains_key(k) && !(n0 <= k < n0 + j)),
                forall|k: u64|
                    #[trigger] self.states@[c as int].out_of_order@.contains_key(k)
                        ==> self.states@[c as int].out_of_order@[k] == m0[k],
                forall|k: u64| #[trigger] m0.contains_key(k) ==> n0 <= k < u64::MAX,
                forall|k: u64| #[trigger] m0.contains_key(k) ==> m0[k].buffer_id == k,
                cap == self.config.output_queue_size,
                cap >= 1,
                out0.len() <= cap,
                r0 == cap - out0.len(),
                self.out_queue@ == out0 + Seq::new(j as nat, |i: int| m0[((n0 + i) as u64)].payload),
                self.out_queue@.len() == out0.len() + j,
                acks@.len() == j,
                forall|i: int|
                    0 <= i < j ==> (#[trigger] acks@[i]).channel_id == s0.channel_id
                        && acks@[i].buffer_id == n0 + i,
                drain_count(m0, n0, r0) == j + drain_count(m0, ((n0 + j) as u64), ((r0 - j) as nat)),
            ensures
                drain_count(m0, ((n0 + j) as u64), ((r0 - j) as nat)) == 0,
            decreases r0 - j,
        {
            if self.out_queue.len() >= self.config.output_queue_size {
                proof {
                    assert(j == r0);
                }
                break;
            }
            let next = self.states[c].next_expected;
            if !self.states[c].out_of_order.contains_key(&next) {
                break;
            }
            let removed = self.states[c].out_of_order.remove(&next);
            proof {
                assert(removed is Some);
                assert(removed->Some_0 == m0[next]);
                assert(next < u64::MAX);
            }
            let buf = match removed {
                Some(x) => x,
                None => { unreached() },
            };
            self.states[c].next_expected = next + 1;
            self.out_queue.push_back(buf.payload);
            let ack_channel = self.states[c].channel_id.clone();
            acks.push(AckMessage { channel_id: ack_channel, buffer_id: next });
            proof {
                assert(drain_count(m0, ((n0 + j) as u64), ((r0 - j) as nat)) == 1 + drain_count(
                    m0,
                    ((n0 + j + 1) as u64),
                    ((r0 - j - 1) as nat),
                ));
                assert(self.out_queue@ =~= out0 + Seq::new(
                    (j + 1) as nat,
                    |i: int| m0[((n0 + i) as u64)].payload,
                ));
                j = j + 1;
            }
        }
        proof {
            let d = drain_count(m0, n0, r0) as int;
            assert(d == j);
            assert(self.out_queue@ == out0 + Seq::new(d as nat, |i: int| m0[((n0 + i) as u64)].payload));
        }
        acks
    }

    /// Handles one buffer arriving on its channel. A buffer at or below the
    /// watermark, or one already held out of order, is a redundant delivery:
    /// it is discarded and exactly one acknowledgment for its id is
    /// re-emitted (the peer may have missed the earlier one). Any other
    /// buffer is stored in the holding map, and the contiguous run starting
    /// at the watermark is drained to the output stream as far as the
    /// stream's capacity allows, one acknowledgment per delivered buffer.
    /// Afterwards the buffer's id is always at or below the watermark or
    /// held, so a repeated delivery is recognized as redundant.
    pub fn receive_buffer(&mut self, b: Buffer) -> (acks: Vec<AckMessage>)
        requires
            old(self).wf(),
            old(self).is_registered(b.channel_id@),
            b.buffer_id < u64::MAX,
        ensures
            final(self).wf(),
            final(self).name == old(self).name,
            final(self).job_name == old(self).job_name,
            final(self).channels == old(self).channels,
            final(self).config == old(self).config,
            final(self).states@.len() == old(self).states@.len(),
            ({
                let c = old(self).index_of(b.channel_id@);
                let s0 = old(self).states@[c];
                let s1 = final(self).states@[c];
                &&& forall|i: int|
                    0 <= i < final(self).states@.len() && i != c ==> final(self).states@[i] == old(
                        self,
                    ).states@[i]
                &&& receive_applies(
                    s0,
                    old(self).out_queue@,
                    old(self).config.output_queue_size as nat,
                    b,
                    s1,
                    final(self).out_queue@,
                    acks@,
                )
                &&& (b.buffer_id < s1.next_expected || s1.out_of_order@.contains_key(b.buffer_id))
            }),
    {
        let c = self.find_channel(&b.channel_id);
        let ghost s0 = self.states@[c as int];
        let next = self.states[c].next_expected;
        if b.buffer_id < next || self.states[c].out_of_order.contains_key(&b.buffer_id) {
            let mut acks: Vec<AckMessage> = Vec::new();
            let ack_channel = self.states[c].channel_id.clone();
            acks.push(AckMessage { channel_id: ack_channel, buffer_id: b.buffer_id });
            return acks;
        }
        let cid = self.states[c].channel_id.clone();
        let bid = b.buffer_id;
        let ghost m1 = s0.out_of_order@.insert(b.buffer_id, b);
        self.states[c].out_of_order.insert(bid, b);
        proof {
            assert(self.states@[c as int].out_of_order@ == m1);
            assert(self.states@[c as int].wf());
            assert(self.wf());
            assert(self.is_registered(cid@));
            let w = self.index_of(cid@);
            assert(0 <= w < self.states@.len() && self.states@[w].channel_id@ == cid@);
            if w != c as int {
                assert(false);
            }
        }
        let acks = self.drain_ready(&cid);
        proof {
            let d = drain_count(
                m1,
                s0.next_expected,
                (self.config.output_queue_size - old(self).out_queue@.len()) as nat,
            ) as int;
            let s1 = self.states@[c as int];
            if s0.next_expected <= bid < s0.next_expected + d {
                assert(bid < s1.next_expected);
            } else {
                assert(s1.out_of_order@.contains_key(bid));
            }
        }
        acks
    }

    /// The handler's registered name.
    pub fn get_name(&self) -> (r: String)
        ensures
            r == self.name,
    {
        self.name.clone()
    }

    /// What kind of handler this is, for the external scheduler.
    pub fn get_handler_type(&self) -> (r: IOHandlerType)
        ensures
            r is DataReader,
    {
        IOHandlerType::DataReader
    }

    /// The channel set this dispatcher owns, in construction order.
    pub fn get_channels(&self) -> (r: &Vec<Channel>)
        ensures
            r == &self.channels,
    {
        &self.channels
    }
}

} // verus!
