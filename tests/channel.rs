use session_manager::builder::build_agent_message;
use session_manager::channel::{ChannelConfig, ChannelError, ChannelState, ReliableChannel};
use session_manager::message::{ClientMessage, MessageType, PayloadType};

fn config(capacity: usize, max_resend: u32) -> ChannelConfig {
    let mut c = ChannelConfig::standard();
    c.outgoing_capacity = capacity;
    c.max_resend_attempts = max_resend;
    c
}

fn incoming(seq: i64, text: &str) -> ClientMessage {
    build_agent_message(text.to_string(), MessageType::OutputStreamData, seq, PayloadType::Output, 0)
        .unwrap()
}

fn outgoing_sequences(c: &ReliableChannel) -> Vec<i64> {
    c.outgoing_message_buffer.iter().map(|e| e.sequence_number).collect()
}

#[test]
fn standard_config_defaults() {
    let c = ChannelConfig::standard();
    assert_eq!(c.outgoing_capacity, 10000);
    assert_eq!(c.max_resend_attempts, 3000);
    assert_eq!(c.clock_granularity, 10);
    assert_eq!(c.max_transmission_timeout, 1000);
    assert_eq!(c.initial_round_trip_time, 100);
    assert_eq!(c.initial_transmission_timeout, 200);
}

#[test]
fn successive_sends_are_numbered_consecutively() {
    let mut c = ReliableChannel::new(ChannelConfig::standard(), 0, 0);
    assert_eq!(c.state, ChannelState::Idle);
    let mut seen = Vec::new();
    for i in 0..4 {
        let o = c.send(format!("k{}", i), PayloadType::Output, 1, 1000).unwrap();
        let d = ClientMessage::deserialize_client_message(&o.frame).unwrap();
        assert_eq!(d.sequence_number, o.sequence_number);
        assert_eq!(d.payload, format!("k{}", i));
        assert_eq!(d.message_type, MessageType::InputStreamData);
        seen.push(o.sequence_number);
    }
    assert_eq!(seen, vec![0, 1, 2, 3]);
    assert_eq!(c.stream_data_sequence_number, 4);
    assert_eq!(c.state, ChannelState::Active);
}

#[test]
fn send_starts_at_base() {
    let mut c = ReliableChannel::new(ChannelConfig::standard(), 41, 0);
    assert_eq!(c.send("a".to_string(), PayloadType::Output, 0, 0).unwrap().sequence_number, 41);
    assert_eq!(c.send("b".to_string(), PayloadType::Output, 0, 0).unwrap().sequence_number, 42);
}

#[test]
fn full_buffer_evicts_oldest() {
    let n = 3;
    let mut c = ReliableChannel::new(config(n, 5), 0, 0);
    for i in 0..n {
        let o = c.send(format!("m{}", i), PayloadType::Output, 0, 0).unwrap();
        assert_eq!(o.evicted, None);
    }
    let o = c.send("m3".to_string(), PayloadType::Output, 0, 0).unwrap();
    assert_eq!(o.evicted, Some(0));
    assert_eq!(outgoing_sequences(&c), vec![1, 2, 3]);
}

#[test]
fn acknowledge_removes_exactly_one() {
    let mut c = ReliableChannel::new(ChannelConfig::standard(), 0, 0);
    for i in 0..5 {
        c.send(format!("m{}", i), PayloadType::Output, 0, 0).unwrap();
    }
    assert!(c.on_acknowledge(2, 10));
    assert_eq!(outgoing_sequences(&c), vec![0, 1, 3, 4]);
    assert!(!c.on_acknowledge(2, 10));
    assert_eq!(outgoing_sequences(&c), vec![0, 1, 3, 4]);
    assert!(c.on_acknowledge(4, 10));
    assert!(c.on_acknowledge(0, 10));
    assert_eq!(outgoing_sequences(&c), vec![1, 3]);
}

#[test]
fn acknowledge_unknown_is_no_op() {
    let mut c = ReliableChannel::new(ChannelConfig::standard(), 0, 0);
    c.send("m".to_string(), PayloadType::Output, 0, 0).unwrap();
    assert!(!c.on_acknowledge(99, 50));
    assert_eq!(outgoing_sequences(&c), vec![0]);
    assert_eq!(c.round_trip_time, 100);
    assert_eq!(c.retransmission_timeout, 200);
}

#[test]
fn acknowledge_updates_round_trip_time() {
    let mut c = ReliableChannel::new(ChannelConfig::standard(), 0, 0);
    c.send("m".to_string(), PayloadType::Output, 0, 1000).unwrap();
    assert!(c.on_acknowledge(0, 1020));
    // srtt = (7*100 + 20)/8, rttvar = (3*0 + 80)/4, rto = srtt + max(10, 4*rttvar)
    assert_eq!(c.round_trip_time, 90);
    assert_eq!(c.round_trip_time_variation, 20);
    assert_eq!(c.retransmission_timeout, 170);
}

#[test]
fn retransmission_timeout_is_clamped() {
    let mut c = ReliableChannel::new(ChannelConfig::standard(), 0, 0);
    c.send("m".to_string(), PayloadType::Output, 0, 0).unwrap();
    assert!(c.on_acknowledge(0, 10_000));
    assert_eq!(c.round_trip_time, 1337);
    assert_eq!(c.round_trip_time_variation, 2475);
    assert_eq!(c.retransmission_timeout, 1000);
}

#[test]
fn out_of_order_delivery_is_reordered() {
    let mut c = ReliableChannel::new(ChannelConfig::standard(), 0, 1);
    let mut delivered = Vec::new();
    let mut acks = Vec::new();
    for seq in [1, 3, 2] {
        let m = incoming(seq, &format!("data{}", seq));
        let id = m.message_id;
        let o = c.on_stream_data(m).unwrap();
        assert_eq!(o.ack.sequence_number, seq);
        assert_eq!(o.ack.message_id, id);
        assert_eq!(o.ack.message_type, MessageType::OutputStreamData);
        assert!(o.ack.is_sequential_message);
        acks.push(o.ack.sequence_number);
        for d in o.delivered {
            delivered.push((d.sequence_number, d.payload));
        }
    }
    assert_eq!(
        delivered,
        vec![(1, "data1".to_string()), (2, "data2".to_string()), (3, "data3".to_string())]
    );
    assert_eq!(acks, vec![1, 3, 2]);
    assert_eq!(c.expected_sequence_number, 4);
}

#[test]
fn duplicate_is_acknowledged_and_dropped() {
    let mut c = ReliableChannel::new(ChannelConfig::standard(), 0, 0);
    assert_eq!(c.on_stream_data(incoming(0, "a")).unwrap().delivered.len(), 1);
    let o = c.on_stream_data(incoming(0, "a")).unwrap();
    assert_eq!(o.delivered.len(), 0);
    assert_eq!(o.ack.sequence_number, 0);
    assert_eq!(c.expected_sequence_number, 1);
}

#[test]
fn buffered_duplicate_overwrites() {
    let mut c = ReliableChannel::new(ChannelConfig::standard(), 0, 0);
    assert_eq!(c.on_stream_data(incoming(1, "old")).unwrap().delivered.len(), 0);
    assert_eq!(c.on_stream_data(incoming(1, "new")).unwrap().delivered.len(), 0);
    let o = c.on_stream_data(incoming(0, "first")).unwrap();
    let got: Vec<String> = o.delivered.into_iter().map(|m| m.payload).collect();
    assert_eq!(got, vec!["first".to_string(), "new".to_string()]);
}

#[test]
fn sweep_resends_identical_bytes_then_gives_up_once() {
    let mut c = ReliableChannel::new(config(10, 2), 0, 0);
    let o = c.send("data".to_string(), PayloadType::Output, 0, 0).unwrap();
    let s = c.resend_sweep(100);
    assert!(s.resend.is_empty() && s.exhausted.is_empty());
    let s = c.resend_sweep(300);
    assert_eq!(s.resend, vec![o.frame.clone()]);
    assert_eq!(c.outgoing_message_buffer[0].resend_attempt, Some(1));
    assert_eq!(c.outgoing_message_buffer[0].last_sent_time, 300);
    let s = c.resend_sweep(600);
    assert_eq!(s.resend, vec![o.frame.clone()]);
    assert_eq!(c.outgoing_message_buffer[0].resend_attempt, Some(2));
    let s = c.resend_sweep(900);
    assert!(s.resend.is_empty());
    assert_eq!(s.exhausted, vec![0]);
    assert!(c.outgoing_message_buffer.is_empty());
    let s = c.resend_sweep(5000);
    assert!(s.resend.is_empty() && s.exhausted.is_empty());
}

#[test]
fn sweep_only_touches_due_entries() {
    let mut c = ReliableChannel::new(config(10, 5), 0, 0);
    c.send("a".to_string(), PayloadType::Output, 0, 0).unwrap();
    let late = c.send("b".to_string(), PayloadType::Output, 0, 250).unwrap();
    let s = c.resend_sweep(300);
    assert_eq!(s.resend.len(), 1);
    assert_ne!(s.resend[0], late.frame);
    assert_eq!(c.outgoing_message_buffer[1].last_sent_time, 250);
    assert_eq!(c.outgoing_message_buffer[1].resend_attempt, None);
}

#[test]
fn close_is_idempotent_and_stops_work() {
    let mut c = ReliableChannel::new(ChannelConfig::standard(), 0, 0);
    c.send("a".to_string(), PayloadType::Output, 0, 0).unwrap();
    c.on_stream_data(incoming(3, "x")).unwrap();
    c.close();
    assert_eq!(c.incoming_message_buffer.len(), 0);
    assert_eq!(c.state, ChannelState::Closed);
    assert!(c.outgoing_message_buffer.is_empty());
    c.close();
    assert_eq!(c.state, ChannelState::Closed);
    assert!(matches!(
        c.send("b".to_string(), PayloadType::Output, 0, 0),
        Err(ChannelError::Closed)
    ));
    let s = c.resend_sweep(10_000);
    assert!(s.resend.is_empty() && s.exhausted.is_empty());
    assert!(matches!(c.on_stream_data(incoming(0, "late")), Err(ChannelError::Closed)));
    assert_eq!(c.expected_sequence_number, 0);
}

#[test]
fn full_buffer_refuses_when_eviction_is_off() {
    let mut cfg = config(2, 5);
    cfg.evict_oldest_when_full = false;
    let mut c = ReliableChannel::new(cfg, 0, 0);
    c.send("a".to_string(), PayloadType::Output, 0, 0).unwrap();
    c.send("b".to_string(), PayloadType::Output, 0, 0).unwrap();
    assert!(matches!(
        c.send("c".to_string(), PayloadType::Output, 0, 0),
        Err(ChannelError::BufferFull)
    ));
    assert_eq!(outgoing_sequences(&c), vec![0, 1]);
    assert_eq!(c.stream_data_sequence_number, 2);
    assert!(c.on_acknowledge(0, 5));
    assert_eq!(c.send("c".to_string(), PayloadType::Output, 0, 0).unwrap().sequence_number, 2);
}
