//! Behaviour of the channel registry and the worker lifecycle manager.

use lovelyres::channel_state::{ChannelState, ManagedChannel, SSHChannelManager, SSHHealthMonitor};
use lovelyres::thread_lifecycle::{SSHConnectionPool, SSHThreadManager, TerminalThreadState};

#[test]
fn channel_registry_register_get_remove() {
    let mut mgr = SSHChannelManager::new();
    mgr.register_channel("alpha".to_string(), 10);
    mgr.register_channel("beta".to_string(), 20);
    assert!(mgr.get_channel("alpha").is_some());
    assert!(mgr.get_channel("missing").is_none());
    mgr.remove_channel("alpha");
    assert!(mgr.get_channel("alpha").is_none());
    assert!(mgr.get_channel("beta").is_some());
}

#[test]
fn registering_twice_replaces_the_record() {
    let mut mgr = SSHChannelManager::new();
    mgr.register_channel("alpha".to_string(), 10);
    mgr.register_channel("alpha".to_string(), 99);
    assert_eq!(mgr.channels.len(), 1);
    assert_eq!(mgr.get_channel("alpha").unwrap().created_at_ms, 99);
}

#[test]
fn validate_reports_the_exact_failure() {
    let mut mgr = SSHChannelManager::new();
    let missing = mgr.validate_channel_for_write("ghost", 0);
    assert_eq!(missing.unwrap_err().message(), "Channel ghost not found");

    mgr.register_channel("live".to_string(), 0);
    assert!(mgr.validate_channel_for_write("live", 1).is_ok());

    // a closed channel is not writable
    mgr.register_channel("shut".to_string(), 0);
    let i = mgr.channels.iter().position(|c| c.session_id == "shut").unwrap();
    mgr.channels[i].state = ChannelState::Closed;
    let shut = mgr.validate_channel_for_write("shut", 1);
    assert_eq!(shut.unwrap_err().message(), "Channel shut is not writable");

    // an idle channel times out and the record remembers it
    mgr.register_channel("idle".to_string(), 0);
    mgr.channel_timeout_ms = 100;
    let idle = mgr.validate_channel_for_write("idle", 500);
    assert_eq!(idle.unwrap_err().message(), "Channel idle has timed out");
    assert!(matches!(mgr.get_channel("idle").unwrap().state, ChannelState::Error(_)));

    // end-of-stream closes the record
    mgr.channel_timeout_ms = u64::MAX / 2;
    mgr.register_channel("done".to_string(), 500);
    let j = mgr.channels.iter().position(|c| c.session_id == "done").unwrap();
    mgr.channels[j].eof = true;
    let done = mgr.validate_channel_for_write("done", 501);
    assert_eq!(done.unwrap_err().message(), "Channel done has reached EOF");
    assert_eq!(mgr.get_channel("done").unwrap().state, ChannelState::Closed);
}

#[test]
fn safe_write_always_defers_to_the_owning_worker() {
    let mut mgr = SSHChannelManager::new();
    mgr.register_channel("live".to_string(), 0);
    let r = mgr.safe_write("live", b"data", 1);
    assert!(r.is_err());
}

#[test]
fn stale_channels_leave_the_registry_on_sweep() {
    let mut mgr = SSHChannelManager::new();
    mgr.channel_timeout_ms = 1000;
    mgr.register_channel("old".to_string(), 0);
    mgr.register_channel("new".to_string(), 5000);
    let n = mgr.cleanup_stale_channels(5500);
    assert_eq!(n, 1);
    assert!(mgr.get_channel("old").is_none());
    assert_eq!(mgr.get_channel("new").unwrap().state, ChannelState::Active);
    assert_eq!(mgr.channels.len(), 1);
}

#[test]
fn health_monitor_sweeps_only_while_monitoring() {
    let mut mgr = SSHChannelManager::new();
    mgr.channel_timeout_ms = 10;
    mgr.register_channel("old".to_string(), 0);
    let mut monitor = SSHHealthMonitor::new();
    assert_eq!(monitor.sweep(&mut mgr, 1000), 0);
    assert_eq!(mgr.get_channel("old").unwrap().state, ChannelState::Active);
    monitor.start_monitoring();
    assert_eq!(monitor.sweep(&mut mgr, 1000), 1);
    assert!(mgr.get_channel("old").is_none());
    monitor.stop_monitoring();
    assert!(!monitor.monitoring);
}

#[test]
fn channel_bookkeeping_on_one_record() {
    let mut c = ManagedChannel::new("one".to_string(), 100);
    assert!(c.is_writable());
    assert!(c.is_readable());
    assert!(!c.is_stale(200, 500));
    c.update_activity(1000);
    assert_eq!(c.last_activity_ms, 1000);
    c.set_state(ChannelState::Closing);
    assert!(!c.is_writable());
    assert_eq!(c.get_state(), ChannelState::Closing);
    c.mark_eof();
    assert!(c.eof);
}

#[test]
fn channel_stats_snapshot_every_record() {
    let mut mgr = SSHChannelManager::new();
    mgr.register_channel("a".to_string(), 100);
    mgr.register_channel("b".to_string(), 300);
    let stats = mgr.get_channel_stats(500);
    assert_eq!(stats.len(), 2);
    assert_eq!(stats[0].0, "a");
    assert_eq!(stats[0].2, 400);
    assert_eq!(stats[1].0, "b");
    assert_eq!(stats[1].2, 200);
    assert!(mgr.check_session_health().unwrap());
}

#[test]
fn worker_records_start_running_and_stop_on_request() {
    let mut mgr = SSHThreadManager::new();
    mgr.create_terminal_thread("w1".to_string(), 0).unwrap();
    let w = mgr.get_terminal_thread("w1").unwrap();
    assert_eq!(w.state, TerminalThreadState::Running);
    assert!(w.has_handle);
    assert!(!w.is_shutdown_requested());

    mgr.stop_terminal_thread("w1").unwrap();
    assert!(mgr.get_terminal_thread("w1").is_none());
    let unknown = mgr.stop_terminal_thread("w1");
    assert_eq!(unknown.unwrap_err().message(), "Terminal thread w1 not found");
}

#[test]
fn stop_all_raises_the_global_flag() {
    let mut mgr = SSHThreadManager::new();
    mgr.create_terminal_thread("w1".to_string(), 0).unwrap();
    mgr.create_terminal_thread("w2".to_string(), 0).unwrap();
    assert_eq!(mgr.stop_all_threads(), 2);
    assert!(mgr.shutdown_all);
    assert!(mgr.threads.is_empty());
}

#[test]
fn stale_workers_leave_with_their_ids() {
    let mut mgr = SSHThreadManager::new();
    mgr.create_terminal_thread("old".to_string(), 0).unwrap();
    mgr.create_terminal_thread("new".to_string(), 400000).unwrap();
    let reclaimed = mgr.cleanup_stale_threads(400001);
    assert_eq!(reclaimed, vec!["old".to_string()]);
    assert!(mgr.get_terminal_thread("old").is_none());
    assert!(mgr.get_terminal_thread("new").is_some());
}

#[test]
fn worker_health_needs_running_state_and_recent_activity() {
    let mut mgr = SSHThreadManager::new();
    mgr.create_terminal_thread("w".to_string(), 0).unwrap();
    assert!(mgr.is_thread_healthy("w", 1000));
    assert!(!mgr.is_thread_healthy("w", 300001));
    assert!(!mgr.is_thread_healthy("ghost", 0));
    let stats = mgr.get_thread_stats(500);
    assert_eq!(stats.len(), 1);
    assert_eq!(stats[0].0, "w");
    assert_eq!(stats[0].2, 500);
}

#[test]
fn connection_pool_enforces_its_bound_and_names_slots() {
    let mut pool = SSHConnectionPool::new(2);
    let first = pool.add_connection(0).unwrap();
    assert_eq!(first, "conn_0");
    let second = pool.add_connection(1).unwrap();
    assert_eq!(second, "conn_1");
    assert!(pool.add_connection(2).is_err());
    assert_eq!(pool.get_connection_count(), 2);
    assert!(pool.get_connection("conn_0").is_some());
    assert!(pool.remove_connection("conn_0"));
    assert!(!pool.remove_connection("conn_0"));
    assert_eq!(pool.get_connection_count(), 1);
    // a freed slot makes room again, under a fresh id
    let third = pool.add_connection(3).unwrap();
    assert_eq!(third, "conn_2");
}
