//! Behaviour of the flow-control engine on concrete inputs.

use lovelyres::flow_control::{
    BufferedInput, ChannelSink, FlowControlState, InputPriority, SSHFlowController, WriteBehavior,
};

fn controller() -> SSHFlowController {
    SSHFlowController::new()
}

#[test]
fn entries_dequeue_in_priority_order_fifo_within_class() {
    let mut c = controller();
    c.queue_input(b"bulk-one".to_vec(), InputPriority::Bulk, 0).unwrap();
    c.queue_input(b"norm-one".to_vec(), InputPriority::Normal, 1).unwrap();
    c.queue_input(b"ctrl-one".to_vec(), InputPriority::Control, 2).unwrap();
    c.queue_input(b"norm-two".to_vec(), InputPriority::Normal, 3).unwrap();
    c.queue_input(b"ctrl-two".to_vec(), InputPriority::Control, 4).unwrap();

    let mut sink = ChannelSink::new();
    let written = c.process_input(&mut sink, 10).unwrap();
    assert_eq!(written, 40);
    let expected: Vec<u8> = b"ctrl-onectrl-twonorm-onenorm-twobulk-one".to_vec();
    assert_eq!(sink.written, expected);
}

#[test]
fn eviction_drops_evictable_entries_never_control() {
    let mut c = controller();
    c.max_buffer_size = 3;
    c.queue_input(b"a".to_vec(), InputPriority::Bulk, 0).unwrap();
    c.queue_input(b"b".to_vec(), InputPriority::Control, 1).unwrap();
    c.queue_input(b"c".to_vec(), InputPriority::Normal, 2).unwrap();
    // at the bound: the earliest evictable entry in delivery order (the
    // normal one) leaves; the control entries are untouchable
    c.queue_input(b"d".to_vec(), InputPriority::Control, 3).unwrap();
    assert_eq!(c.input_buffer.len(), 3);
    assert!(c.input_buffer.iter().all(|e| e.data != b"c".to_vec()));
    assert!(c.input_buffer.iter().any(|e| e.data == b"a".to_vec()));
    assert!(c.input_buffer.iter().any(|e| e.data == b"b".to_vec()));
    assert!(c.input_buffer.iter().any(|e| e.data == b"d".to_vec()));
}

#[test]
fn enqueue_fails_only_when_urgent_entries_fill_the_buffer() {
    let mut c = controller();
    c.max_buffer_size = 2;
    c.queue_input(b"x".to_vec(), InputPriority::Control, 0).unwrap();
    c.queue_input(b"y".to_vec(), InputPriority::Navigation, 1).unwrap();
    let r = c.queue_input(b"z".to_vec(), InputPriority::Control, 2);
    assert!(r.is_err());
    let msg = r.unwrap_err().message();
    assert!(msg.contains("overflow"));
    // nothing urgent was dropped
    assert_eq!(c.input_buffer.len(), 2);
}

#[test]
fn drain_writes_no_more_than_the_available_window() {
    let mut c = controller();
    c.window_size = 8;
    c.queue_input(b"12345".to_vec(), InputPriority::Normal, 0).unwrap();
    c.queue_input(b"67890".to_vec(), InputPriority::Normal, 1).unwrap();
    let mut sink = ChannelSink::new();
    let written = c.process_input(&mut sink, 2).unwrap();
    assert_eq!(written, 5);
    assert_eq!(sink.written, b"12345".to_vec());
    assert_eq!(c.get_flow_state(), FlowControlState::Throttled);
    assert!(c.bytes_sent - c.bytes_acknowledged <= c.window_size as u64);
    // acknowledging frees the window and the rest drains
    c.acknowledge_bytes(5);
    let mut sink2 = ChannelSink::new();
    let written2 = c.process_input(&mut sink2, 3).unwrap();
    assert_eq!(written2, 5);
    assert_eq!(sink2.written, b"67890".to_vec());
}

#[test]
fn adjust_window_unblocks_when_capacity_appears() {
    let mut c = controller();
    c.set_flow_state(FlowControlState::Blocked);
    c.adjust_window(1024);
    assert_eq!(c.get_flow_state(), FlowControlState::Normal);
}

#[test]
fn adjust_window_leaves_other_states_alone() {
    let mut c = controller();
    c.set_flow_state(FlowControlState::Throttled);
    c.adjust_window(1024);
    assert_eq!(c.get_flow_state(), FlowControlState::Throttled);
}

#[test]
fn blocked_state_makes_drain_a_no_op() {
    let mut c = controller();
    c.queue_input(b"data".to_vec(), InputPriority::Normal, 0).unwrap();
    c.set_flow_state(FlowControlState::Blocked);
    let mut sink = ChannelSink::new();
    let written = c.process_input(&mut sink, 1).unwrap();
    assert_eq!(written, 0);
    assert!(sink.written.is_empty());
    assert_eq!(c.input_buffer.len(), 1);
}

#[test]
fn draining_considers_only_urgent_entries() {
    let mut c = controller();
    c.queue_input(b"paste".to_vec(), InputPriority::Bulk, 0).unwrap();
    c.queue_input(b"\r".to_vec(), InputPriority::Control, 1).unwrap();
    c.set_flow_state(FlowControlState::Draining);
    let mut sink = ChannelSink::new();
    let written = c.process_input(&mut sink, 2).unwrap();
    assert_eq!(written, 1);
    assert_eq!(sink.written, b"\r".to_vec());
    // the bulk entry stays queued for calmer times
    assert_eq!(c.input_buffer.len(), 1);
    assert_eq!(c.input_buffer[0].data, b"paste".to_vec());
}

#[test]
fn broken_pipe_clears_the_whole_queue() {
    let mut c = controller();
    c.queue_input(b"one".to_vec(), InputPriority::Normal, 0).unwrap();
    c.queue_input(b"two".to_vec(), InputPriority::Normal, 1).unwrap();
    let mut sink = ChannelSink::with_script(vec![WriteBehavior::BrokenPipe]);
    let r = c.process_input(&mut sink, 2);
    assert!(r.is_err());
    assert_eq!(c.input_buffer.len(), 0);
    assert!(sink.written.is_empty());
}

#[test]
fn would_block_throttles_and_counts_a_retry() {
    let mut c = controller();
    c.queue_input(b"one".to_vec(), InputPriority::Normal, 0).unwrap();
    let mut sink = ChannelSink::with_script(vec![WriteBehavior::WouldBlock]);
    let written = c.process_input(&mut sink, 1).unwrap();
    assert_eq!(written, 0);
    assert_eq!(c.get_flow_state(), FlowControlState::Throttled);
    assert_eq!(c.input_buffer[0].retry_count, 1);
}

#[test]
fn draining_signal_backs_off_exponentially() {
    let mut c = controller();
    c.queue_input(b"one".to_vec(), InputPriority::Normal, 0).unwrap();
    let mut sink = ChannelSink::with_script(vec![WriteBehavior::DrainingSignal]);
    let written = c.process_input(&mut sink, 100).unwrap();
    assert_eq!(written, 0);
    assert_eq!(c.get_flow_state(), FlowControlState::Draining);
    // first retry backs off 100 ms
    assert_eq!(c.backoff_until_ms, 200);
    // before the backoff elapses nothing happens
    c.set_flow_state(FlowControlState::Normal);
    let mut sink2 = ChannelSink::new();
    assert_eq!(c.process_input(&mut sink2, 150).unwrap(), 0);
    assert!(sink2.written.is_empty());
    // after it elapses the entry drains
    let mut sink3 = ChannelSink::new();
    assert_eq!(c.process_input(&mut sink3, 250).unwrap(), 3);
    assert_eq!(sink3.written, b"one".to_vec());
}

#[test]
fn stale_entries_are_dropped_not_written() {
    let mut c = controller();
    c.drain_timeout_ms = 100;
    c.queue_input(b"old".to_vec(), InputPriority::Normal, 0).unwrap();
    c.queue_input(b"new".to_vec(), InputPriority::Normal, 150).unwrap();
    let mut sink = ChannelSink::new();
    let written = c.process_input(&mut sink, 200).unwrap();
    assert_eq!(written, 3);
    assert_eq!(sink.written, b"new".to_vec());
}

#[test]
fn retry_exhausted_entries_are_dropped() {
    let mut c = controller();
    c.max_retry_count = 2;
    let mut worn = BufferedInput::new(b"worn".to_vec(), InputPriority::Normal, 0);
    worn.increment_retry();
    worn.increment_retry();
    c.input_buffer.push(worn);
    let mut sink = ChannelSink::new();
    assert_eq!(c.process_input(&mut sink, 1).unwrap(), 0);
    assert!(c.input_buffer.is_empty());
}

#[test]
fn round_trip_bytes_for_homogeneous_input() {
    let mut c = controller();
    c.queue_input(b"hello ".to_vec(), InputPriority::Normal, 0).unwrap();
    c.queue_input(b"flow ".to_vec(), InputPriority::Normal, 1).unwrap();
    c.queue_input(b"control".to_vec(), InputPriority::Normal, 2).unwrap();
    let mut sink = ChannelSink::new();
    let written = c.process_input(&mut sink, 5).unwrap();
    assert_eq!(written, 18);
    assert_eq!(sink.written, b"hello flow control".to_vec());
    assert!(c.input_buffer.is_empty());
}

#[test]
fn classification_of_raw_input() {
    assert_eq!(SSHFlowController::classify_input_priority(&[0x03]), InputPriority::Control);
    assert_eq!(SSHFlowController::classify_input_priority(&[0x0d]), InputPriority::Control);
    assert_eq!(SSHFlowController::classify_input_priority(&[0x7f]), InputPriority::Control);
    assert_eq!(SSHFlowController::classify_input_priority(&[0x09]), InputPriority::Control);
    assert_eq!(
        SSHFlowController::classify_input_priority(b"\x1b[A"),
        InputPriority::Control
    );
    assert_eq!(
        SSHFlowController::classify_input_priority(b"\x1bOP"),
        InputPriority::Control
    );
    assert_eq!(SSHFlowController::classify_input_priority(b""), InputPriority::Normal);
    assert_eq!(SSHFlowController::classify_input_priority(b"ls"), InputPriority::Normal);
    assert_eq!(SSHFlowController::classify_input_priority(&[0x1b]), InputPriority::Normal);
    let paste = vec![b'x'; 101];
    assert_eq!(SSHFlowController::classify_input_priority(&paste), InputPriority::Bulk);
    let not_quite = vec![b'x'; 100];
    assert_eq!(SSHFlowController::classify_input_priority(&not_quite), InputPriority::Normal);
}

#[test]
fn buffer_stats_report_length_urgency_and_state() {
    let mut c = controller();
    c.queue_input(b"a".to_vec(), InputPriority::Control, 0).unwrap();
    c.queue_input(b"b".to_vec(), InputPriority::Bulk, 1).unwrap();
    c.queue_input(b"c".to_vec(), InputPriority::Navigation, 2).unwrap();
    let (len, urgent, state) = c.get_buffer_stats();
    assert_eq!(len, 3);
    assert_eq!(urgent, 2);
    assert_eq!(state, FlowControlState::Normal);
    c.clear_buffer();
    let (len2, urgent2, _) = c.get_buffer_stats();
    assert_eq!(len2, 0);
    assert_eq!(urgent2, 0);
}

#[test]
fn stale_check_is_relative_to_the_given_clock() {
    let e = BufferedInput::new(b"x".to_vec(), InputPriority::Normal, 1000);
    assert!(!e.is_stale(1500, 600));
    assert!(e.is_stale(1601, 600));
    // a clock that ran backwards reads as no age at all
    assert!(!e.is_stale(500, 600));
}
