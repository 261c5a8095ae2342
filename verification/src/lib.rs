//! Reliable, ordered, backpressured transport of discrete binary messages
//! ("buffers") over many independent logical channels.
//!
//! The send side ([`buffer_queue::BufferQueue`]) holds unacknowledged buffers
//! per channel, assigns monotonic sequence ids, exposes a retransmission
//! cursor, and evicts acknowledged buffers strictly in order. The receive
//! side ([`data_reader::DataReader`]) deduplicates and reorders incoming
//! buffers per channel and publishes a single bounded, in-order output
//! stream of payloads.

pub mod channel;
pub mod buffer_queue;
pub mod data_reader;
