use netbuf::buffer_queue::{BufferQueue, MAX_BUFFERS_PER_CHANNEL};
use netbuf::channel::Channel;

fn local(id: &str) -> Channel {
    Channel::Local { channel_id: id.to_string(), ipc_addr: format!("ipc://{id}") }
}

fn queue_ids(q: &BufferQueue, slot: usize) -> Vec<u64> {
    q.channels[slot].queue.iter().map(|b| b.buffer_id).collect()
}

#[test]
fn capacity_full_queue_refuses_until_ack() {
    let cid = "ch0".to_string();
    let mut q = BufferQueue::new(vec![local("ch0")]);
    for i in 0..MAX_BUFFERS_PER_CHANNEL {
        assert!(q.try_push(&cid, vec![i as u8]), "push {i} should succeed");
    }
    assert!(!q.try_push(&cid, vec![0xff]));
    assert!(!q.try_push(&cid, vec![0xfe]));
    // an in-order ack frees one slot
    q.request_pop(&cid, 0);
    assert_eq!(q.channels[0].queue.len(), MAX_BUFFERS_PER_CHANNEL - 1);
    assert!(q.try_push(&cid, vec![0xfd]));
    assert!(!q.try_push(&cid, vec![0xfc]));
}

#[test]
fn monotonic_ids_per_channel_independent() {
    let a = "a".to_string();
    let b = "b".to_string();
    let mut q = BufferQueue::new(vec![local("a"), local("b")]);
    assert!(q.try_push(&a, vec![1]));
    assert!(q.try_push(&b, vec![2]));
    assert!(q.try_push(&a, vec![3]));
    assert!(q.try_push(&a, vec![4]));
    assert!(q.try_push(&b, vec![5]));
    assert_eq!(queue_ids(&q, 0), vec![0, 1, 2]);
    assert_eq!(queue_ids(&q, 1), vec![0, 1]);
    assert_eq!(q.channels[0].next_buffer_id, 3);
    assert_eq!(q.channels[1].next_buffer_id, 2);
}

#[test]
fn in_order_eviction_only() {
    let cid = "c".to_string();
    let mut q = BufferQueue::new(vec![local("c")]);
    for i in 0..3u8 {
        assert!(q.try_push(&cid, vec![i]));
    }
    // acknowledging 2 first leaves the queue unchanged
    q.request_pop(&cid, 2);
    assert_eq!(queue_ids(&q, 0), vec![0, 1, 2]);
    // acknowledging 0 evicts only the head
    q.request_pop(&cid, 0);
    assert_eq!(queue_ids(&q, 0), vec![1, 2]);
    // acknowledging 1 evicts 1 and the retained 2 in one pass
    q.request_pop(&cid, 1);
    assert_eq!(queue_ids(&q, 0), Vec::<u64>::new());
    assert!(q.channels[0].pending_acks.is_empty());
}

#[test]
fn schedule_next_offers_without_removing() {
    let cid = "s".to_string();
    let mut q = BufferQueue::new(vec![local("s")]);
    assert!(q.schedule_next(&cid).is_none());
    assert!(q.try_push(&cid, vec![10]));
    assert!(q.try_push(&cid, vec![11]));
    let first = q.schedule_next(&cid).expect("cursor at head");
    assert_eq!(first.buffer_id, 0);
    assert_eq!(first.payload, vec![10]);
    assert_eq!(first.channel_id, "s");
    let second = q.schedule_next(&cid).expect("cursor at second");
    assert_eq!(second.buffer_id, 1);
    // every queued buffer offered once: nothing further until a change
    assert!(q.schedule_next(&cid).is_none());
    // offering did not remove anything
    assert_eq!(q.channels[0].queue.len(), 2);
}

#[test]
fn eviction_pulls_schedule_cursor_back() {
    let cid = "t".to_string();
    let mut q = BufferQueue::new(vec![local("t")]);
    for i in 0..3u8 {
        assert!(q.try_push(&cid, vec![i]));
    }
    assert_eq!(q.schedule_next(&cid).unwrap().buffer_id, 0);
    assert_eq!(q.schedule_next(&cid).unwrap().buffer_id, 1);
    // cursor is 2; evicting the head keeps its relative position
    q.request_pop(&cid, 0);
    assert_eq!(q.channels[0].schedule_cursor, 1);
    // the next candidate is still the not-yet-offered buffer 2
    assert_eq!(q.schedule_next(&cid).unwrap().buffer_id, 2);
    assert!(q.schedule_next(&cid).is_none());
}

#[test]
fn ack_for_evicted_id_is_harmless() {
    let cid = "u".to_string();
    let mut q = BufferQueue::new(vec![local("u")]);
    assert!(q.try_push(&cid, vec![7]));
    q.request_pop(&cid, 0);
    assert_eq!(q.channels[0].queue.len(), 0);
    // a stale re-ack of an already evicted id changes nothing visible
    q.request_pop(&cid, 0);
    assert_eq!(q.channels[0].queue.len(), 0);
    assert!(q.try_push(&cid, vec![8]));
    assert_eq!(queue_ids(&q, 0), vec![1]);
}

#[test]
fn channel_message_fields_and_equality() {
    let m = netbuf::channel::ChannelMessage { key: "k1".to_string(), value: "v1".to_string() };
    let same = netbuf::channel::ChannelMessage { key: "k1".to_string(), value: "v1".to_string() };
    let other = netbuf::channel::ChannelMessage { key: "k1".to_string(), value: "v2".to_string() };
    assert_eq!(m.key, "k1");
    assert_eq!(m.value, "v1");
    assert!(m == same);
    assert!(m != other);
}
