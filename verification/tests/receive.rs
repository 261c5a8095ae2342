use netbuf::channel::{AckMessage, Buffer, Channel};
use netbuf::data_reader::{DataReader, DataReaderConfig, IOHandlerType};

fn local(id: &str) -> Channel {
    Channel::Local { channel_id: id.to_string(), ipc_addr: format!("ipc://{id}") }
}

fn reader(cap: usize, ids: &[&str]) -> DataReader {
    let channels = ids.iter().map(|id| local(id)).collect();
    DataReader::new("reader".to_string(), "job".to_string(), DataReaderConfig::new(cap), channels)
}

fn buf(cid: &str, id: u64, byte: u8) -> Buffer {
    Buffer { channel_id: cid.to_string(), buffer_id: id, payload: vec![byte] }
}

fn ack_ids(acks: &[AckMessage]) -> Vec<u64> {
    acks.iter().map(|a| a.buffer_id).collect()
}

#[test]
fn in_order_delivery_drains_immediately() {
    let mut r = reader(10, &["c"]);
    assert_eq!(ack_ids(&r.receive_buffer(buf("c", 0, 100))), vec![0]);
    assert_eq!(ack_ids(&r.receive_buffer(buf("c", 1, 101))), vec![1]);
    assert_eq!(r.read_bytes(), Some(vec![100]));
    assert_eq!(r.read_bytes(), Some(vec![101]));
    assert_eq!(r.read_bytes(), None);
    assert_eq!(r.states[0].next_expected, 2);
}

#[test]
fn duplicate_delivery_one_payload_two_acks() {
    let mut r = reader(16, &["c"]);
    let mut acks_for_5 = 0;
    for i in 0..=5u64 {
        let acks = r.receive_buffer(buf("c", i, i as u8));
        acks_for_5 += acks.iter().filter(|a| a.buffer_id == 5).count();
    }
    // a second delivery of id 5 is discarded but re-acknowledged
    let again = r.receive_buffer(buf("c", 5, 200));
    assert_eq!(ack_ids(&again), vec![5]);
    assert_eq!(again[0].channel_id, "c");
    acks_for_5 += 1;
    assert_eq!(acks_for_5, 2);
    // exactly one payload for id 5 reached the output stream
    let mut payloads = Vec::new();
    while let Some(p) = r.read_bytes() {
        payloads.push(p);
    }
    assert_eq!(payloads, vec![vec![0], vec![1], vec![2], vec![3], vec![4], vec![5]]);
}

#[test]
fn stale_buffer_below_watermark_is_reacked() {
    let mut r = reader(4, &["c"]);
    assert_eq!(ack_ids(&r.receive_buffer(buf("c", 0, 1))), vec![0]);
    assert_eq!(r.read_bytes(), Some(vec![1]));
    // id 0 is now at the watermark; a late duplicate is dropped and re-acked
    let acks = r.receive_buffer(buf("c", 0, 99));
    assert_eq!(ack_ids(&acks), vec![0]);
    assert_eq!(r.read_bytes(), None);
    assert_eq!(r.states[0].next_expected, 1);
}

#[test]
fn reordered_arrivals_come_out_in_id_order() {
    let mut r = reader(10, &["c"]);
    assert_eq!(ack_ids(&r.receive_buffer(buf("c", 0, 10))), vec![0]);
    // id 2 arrives early: held, not delivered, not acknowledged yet
    assert_eq!(ack_ids(&r.receive_buffer(buf("c", 2, 12))), Vec::<u64>::new());
    assert!(r.states[0].out_of_order.contains_key(&2));
    // id 1 closes the gap: 1 and 2 drain together
    assert_eq!(ack_ids(&r.receive_buffer(buf("c", 1, 11))), vec![1, 2]);
    assert_eq!(r.read_bytes(), Some(vec![10]));
    assert_eq!(r.read_bytes(), Some(vec![11]));
    assert_eq!(r.read_bytes(), Some(vec![12]));
    assert_eq!(r.read_bytes(), None);
    // the watermark ends at 2
    assert_eq!(r.states[0].next_expected, 3);
}

#[test]
fn backpressure_suspends_drain_until_consumer_pops() {
    let mut r = reader(1, &["c"]);
    assert_eq!(ack_ids(&r.receive_buffer(buf("c", 0, 20))), vec![0]);
    // the output stream (capacity 1) is now full: 1 and 2 stay held
    assert_eq!(ack_ids(&r.receive_buffer(buf("c", 1, 21))), Vec::<u64>::new());
    assert_eq!(ack_ids(&r.receive_buffer(buf("c", 2, 22))), Vec::<u64>::new());
    assert!(r.states[0].out_of_order.contains_key(&1));
    assert!(r.states[0].out_of_order.contains_key(&2));
    assert_eq!(r.out_queue.len(), 1);
    // a consumer pop frees space; the next sweep drains one more
    assert_eq!(r.read_bytes(), Some(vec![20]));
    assert_eq!(ack_ids(&r.drain_ready(&"c".to_string())), vec![1]);
    assert_eq!(r.read_bytes(), Some(vec![21]));
    assert_eq!(ack_ids(&r.drain_ready(&"c".to_string())), vec![2]);
    assert_eq!(r.read_bytes(), Some(vec![22]));
    assert_eq!(r.read_bytes(), None);
    assert_eq!(r.states[0].next_expected, 3);
    assert!(r.states[0].out_of_order.is_empty());
}

#[test]
fn channels_do_not_interfere() {
    let mut r = reader(10, &["a", "b"]);
    assert_eq!(ack_ids(&r.receive_buffer(buf("b", 0, 7))), vec![0]);
    assert_eq!(ack_ids(&r.receive_buffer(buf("a", 1, 8))), Vec::<u64>::new());
    assert_eq!(r.states[0].next_expected, 0);
    assert_eq!(r.states[1].next_expected, 1);
    assert_eq!(ack_ids(&r.receive_buffer(buf("a", 0, 9))), vec![0, 1]);
    // shared stream in drain order across channels, in id order within one
    assert_eq!(r.read_bytes(), Some(vec![7]));
    assert_eq!(r.read_bytes(), Some(vec![9]));
    assert_eq!(r.read_bytes(), Some(vec![8]));
    assert_eq!(r.read_bytes(), None);
}

#[test]
fn handler_accessors() {
    let r = reader(3, &["x", "y"]);
    assert_eq!(r.get_name(), "reader");
    assert!(matches!(r.get_handler_type(), IOHandlerType::DataReader));
    let chans = r.get_channels();
    assert_eq!(chans.len(), 2);
    assert_eq!(chans[0].get_channel_id().as_str(), "x");
    assert_eq!(chans[1].get_channel_id().as_str(), "y");
    assert_eq!(r.config.output_queue_size, 3);
}

#[test]
fn channel_id_of_both_variants() {
    let l = local("loc");
    assert_eq!(l.get_channel_id().as_str(), "loc");
    let rem = Channel::Remote {
        channel_id: "rem".to_string(),
        source_local_ipc_addr: "ipc://s".to_string(),
        source_node_ip: "10.0.0.1".to_string(),
        source_node_id: "n1".to_string(),
        target_local_ipc_addr: "ipc://t".to_string(),
        target_node_ip: "10.0.0.2".to_string(),
        target_node_id: "n2".to_string(),
        port: 4000,
    };
    assert_eq!(rem.get_channel_id().as_str(), "rem");
    let copy = rem.clone();
    assert_eq!(copy.get_channel_id().as_str(), "rem");
}

#[test]
fn buffer_clone_keeps_contents() {
    let b = buf("c", 3, 42);
    let c = b.clone();
    assert_eq!(c.channel_id, "c");
    assert_eq!(c.buffer_id, 3);
    assert_eq!(c.payload, vec![42]);
}
