//! Leaf data types of the transport layer: channel descriptors, buffers
//! (payload plus sequencing metadata), and the logical acknowledgment record.

use vstd::prelude::*;

verus! {

/// A generic key/value message exchanged over a channel.
pub struct ChannelMessage {
    pub key: String,
    pub value: String,
}

impl PartialEq for ChannelMessage {
    fn eq(&self, other: &ChannelMessage) -> (r: bool) {
        self.key == other.key && self.value == other.value
    }
}

impl vstd::std_specs::cmp::PartialEqSpecImpl for ChannelMessage {
    open spec fn obeys_eq_spec() -> bool {
        true
    }

    open spec fn eq_spec(&self, other: &ChannelMessage) -> bool {
        self.key@ == other.key@ && self.value@ == other.value@
    }
}

/// Immutable identity/addressing record for one logical point-to-point link.
///
/// `channel_id` is the join key used by every other structure; it is assumed
/// unique across the channel set handed to a queue or dispatcher.
#[derive(Clone)]
pub enum Channel {
    Local { channel_id: String, ipc_addr: String },
    Remote {
        channel_id: String,
        source_local_ipc_addr: String,
        source_node_ip: String,
        source_node_id: String,
        target_local_ipc_addr: String,
        target_node_ip: String,
        target_node_id: String,
        port: i32,
    },
}

impl Channel {
    /// The identifying key of this channel, as a sequence of characters.
    pub open spec fn spec_channel_id(&self) -> Seq<char> {
        match self {
            Channel::Local { channel_id, .. } => channel_id@,
            Channel::Remote { channel_id, .. } => channel_id@,
        }
    }

    pub fn get_channel_id(&self) -> (id: &String)
        ensures
            id@ == self.spec_channel_id(),
    {
        match self {
            Channel::Local { channel_id, .. } => channel_id,
            Channel::Remote { channel_id, .. } => channel_id,
        }
    }
}

/// One payload unit plus its transport metadata: the owning channel and a
/// per-channel, zero-based, strictly monotonically increasing sequence id.
pub struct Buffer {
    pub channel_id: String,
    pub buffer_id: u64,
    pub payload: Vec<u8>,
}

impl Clone for Buffer {
    /// A copy of this buffer: same channel, same sequence id, same payload bytes.
    fn clone(&self) -> (r: Self)
        ensures
            r.channel_id == self.channel_id,
            r.buffer_id == self.buffer_id,
            r.payload@ == self.payload@,
    {
        let payload = self.payload.clone();
        proof {
            assert forall|i: int| 0 <= i < self.payload@.len() implies payload@[i]
                == self.payload@[i] by {
                assert(vstd::pervasive::cloned::<u8>(self.payload@[i], payload@[i]));
            }
            assert(payload@ =~= self.payload@);
        }
        Buffer { channel_id: self.channel_id.clone(), buffer_id: self.buffer_id, payload }
    }
}

/// The logical acknowledgment record sent from the receive side back to the
/// peer's send queue: it identifies one delivered (or redundantly delivered)
/// buffer. Wire serialization is an external collaborator's concern.
pub struct AckMessage {
    pub channel_id: String,
    pub buffer_id: u64,
}

} // verus!
