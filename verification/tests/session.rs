//! Behaviour of the session pool: routing, terminals and sweeps.

use lovelyres::channel_state::ChannelState;
use lovelyres::flow_control::{ChannelSink, FlowControlState};
use lovelyres::session_pool::{
    escape_shell_command, is_bash_missing_error, shell_wrapped_command, ExecRoute, SSHManager,
    ScriptedExec,
};

fn connected_manager() -> SSHManager {
    let mut m = SSHManager::new();
    m.connect("example.net", 22, "admin", "SECRET-REDACTED", 1000).unwrap();
    m
}

#[test]
fn connect_establishes_both_transports_and_caches_parameters() {
    let m = connected_manager();
    assert!(m.is_connected());
    assert!(m.current_session.is_some());
    assert!(m.dashboard_session.is_some());
    assert!(m.last_connection_params.is_some());
    let status = m.get_connection_status().unwrap();
    assert_eq!(status.host, "example.net");
    assert_eq!(status.port, 22);
    assert_eq!(status.username, "admin");
}

#[test]
fn disconnect_invalidates_cached_parameters() {
    let mut m = connected_manager();
    m.disconnect().unwrap();
    assert!(!m.is_connected());
    assert!(m.current_session.is_none());
    assert!(m.dashboard_session.is_none());
    assert!(m.last_connection_params.is_none());
}

#[test]
fn execute_uses_primary_only_while_idle() {
    let mut m = SSHManager::new();
    assert!(m.execute_command("uptime", 0).is_err());
    m.connect("example.net", 22, "admin", "SECRET-REDACTED", 0).unwrap();
    // cached parameters exist, so an idle pool prefers a disposable
    // transport and falls back to the primary one
    assert_eq!(m.plan_execute().unwrap(), ExecRoute::DisposableThenPrimary);
    m.current_session.as_mut().unwrap().push_result(ScriptedExec::Output {
        output: "up 1 day\n".to_string(),
        exit_code: 0,
    });
    let out = m.execute_command("uptime", 5).unwrap();
    assert_eq!(out.output, "up 1 day\n");
    assert_eq!(out.exit_code, Some(0));
    assert_eq!(m.current_session.as_ref().unwrap().touch_count, 1);
}

#[test]
fn execute_with_open_terminal_never_touches_the_primary_transport() {
    let mut m = connected_manager();
    m.create_terminal_session("term-1", 80, 24, 2000).unwrap();
    assert_eq!(m.plan_execute().unwrap(), ExecRoute::Disposable);
    // the host will answer the disposable transport
    m.disposable_scripts.push(ScriptedExec::Output { output: "hi\n".to_string(), exit_code: 0 });
    let before = m.current_session.as_ref().unwrap().touch_count;
    let out = m.execute_command("echo hi", 2500).unwrap();
    assert_eq!(out.output, "hi\n");
    assert_eq!(out.exit_code, Some(0));
    // the primary transport was not touched
    assert_eq!(m.current_session.as_ref().unwrap().touch_count, before);
}

#[test]
fn fast_path_is_unaffected_by_a_draining_terminal() {
    let mut m = connected_manager();
    m.create_terminal_session("term-1", 80, 24, 2000).unwrap();
    // the terminal worker is mid-retry: its flow control is draining
    m.terminal_flows[0].1.set_flow_state(FlowControlState::Draining);
    m.dashboard_session.as_mut().unwrap().push_result(ScriptedExec::Output {
        output: "load 0.1\n".to_string(),
        exit_code: 0,
    });
    let out = m.execute_dashboard_command("cat /proc/loadavg", 2600).unwrap();
    assert_eq!(out.output, "load 0.1\n");
    assert_eq!(out.exit_code, Some(0));
    // the primary transport stayed out of it
    assert_eq!(m.current_session.as_ref().unwrap().touch_count, 0);
}

#[test]
fn dashboard_without_connection_reports_it() {
    let mut m = SSHManager::new();
    let r = m.execute_dashboard_command("uptime", 0);
    assert!(r.is_err());
    assert_eq!(r.unwrap_err().message(), "Dashboard session not initialized");
}

#[test]
fn closing_an_unknown_terminal_is_an_error_closing_twice_is_not() {
    let mut m = connected_manager();
    let never = m.close_terminal_session("ghost");
    assert!(never.is_err());
    assert!(never.unwrap_err().message().contains("does not exist"));

    m.create_terminal_session("term-1", 80, 24, 2000).unwrap();
    assert!(m.has_terminal_session("term-1"));
    m.close_terminal_session("term-1").unwrap();
    assert!(!m.has_terminal_session("term-1"));
    // the second close is a harmless success
    m.close_terminal_session("term-1").unwrap();
}

#[test]
fn opening_a_terminal_flips_the_primary_transport_nonblocking() {
    let mut m = connected_manager();
    assert!(m.current_session.as_ref().unwrap().blocking);
    m.create_terminal_session("term-1", 80, 24, 2000).unwrap();
    assert!(!m.current_session.as_ref().unwrap().blocking);
    // a non-blocking primary transport routes commands away even after
    // every terminal is gone
    m.close_terminal_session("term-1").unwrap();
    assert_eq!(m.plan_execute().unwrap(), ExecRoute::Disposable);
}

#[test]
fn terminal_input_round_trip_through_the_pump() {
    let mut m = connected_manager();
    m.create_terminal_session("term-1", 80, 24, 2000).unwrap();
    m.send_terminal_input("term-1", b"ls -la".to_vec(), 2100).unwrap();
    m.send_terminal_input("term-1", b"\r".to_vec(), 2200).unwrap();
    let mut sink = ChannelSink::new();
    let written = m.pump_terminal("term-1", &mut sink, 2300).unwrap();
    assert_eq!(written, 7);
    // the carriage return is control input and goes first
    assert_eq!(sink.written, b"\rls -la".to_vec());
}

#[test]
fn input_to_an_unknown_terminal_is_an_error() {
    let mut m = connected_manager();
    let r = m.send_terminal_input("ghost", b"x".to_vec(), 0);
    assert!(r.is_err());
    assert!(r.unwrap_err().message().contains("does not exist"));
}

#[test]
fn stale_worker_is_reclaimed_and_its_channel_closed() {
    let mut m = connected_manager();
    m.create_terminal_session("term-1", 80, 24, 2000).unwrap();
    // five silent minutes later the sweep reclaims the worker
    let reclaimed = m.sweep_stale_workers(2000 + 300001);
    assert_eq!(reclaimed, 1);
    assert!(m.thread_manager.get_terminal_thread("term-1").is_none());
    assert!(!m.thread_manager.is_thread_healthy("term-1", 2000 + 300001));
    let channel = m.channel_manager.get_channel("term-1").unwrap();
    assert_eq!(channel.state, ChannelState::Closed);
}

#[test]
fn fresh_worker_survives_the_sweep() {
    let mut m = connected_manager();
    m.create_terminal_session("term-1", 80, 24, 2000).unwrap();
    let reclaimed = m.sweep_stale_workers(2000 + 1000);
    assert_eq!(reclaimed, 0);
    assert!(m.thread_manager.get_terminal_thread("term-1").is_some());
    assert!(m.thread_manager.is_thread_healthy("term-1", 2000 + 1000));
}

#[test]
fn close_all_reports_how_many_terminals_were_open() {
    let mut m = connected_manager();
    m.create_terminal_session("one", 80, 24, 0).unwrap();
    m.create_terminal_session("two", 80, 24, 1).unwrap();
    m.create_terminal_session("three", 80, 24, 2).unwrap();
    assert_eq!(m.close_all_terminal_sessions().unwrap(), 3);
    assert!(m.terminal_ids.is_empty());
    assert_eq!(m.get_active_terminal_sessions().len(), 0);
}

#[test]
fn dangerous_commands_are_refused() {
    let mut m = connected_manager();
    let r = m.execute_command(":(){ :|:& };:", 0);
    assert!(r.is_err());
    assert!(r.unwrap_err().message().contains("rejected"));
    let long = "x".repeat(262145);
    assert!(m.execute_command(&long, 0).is_err());
}

#[test]
fn busy_pool_without_parameters_cannot_execute() {
    let mut m = connected_manager();
    m.create_terminal_session("term-1", 80, 24, 0).unwrap();
    m.last_connection_params = None;
    assert!(m.execute_command("uptime", 1).is_err());
}

#[test]
fn resize_acknowledges_known_terminals_only() {
    let mut m = connected_manager();
    m.create_terminal_session("term-1", 80, 24, 0).unwrap();
    assert!(m.resize_terminal("term-1", 120, 40).is_ok());
    assert!(m.resize_terminal("ghost", 120, 40).is_err());
}

#[test]
fn session_records_follow_the_terminal_lifecycle() {
    let mut m = connected_manager();
    m.create_terminal_session("term-1", 80, 24, 42).unwrap();
    let record = m.get_session("term-1").unwrap();
    assert!(record.is_active);
    assert_eq!(record.created_ms, 42);
    assert_eq!(m.get_active_sessions().len(), 1);
    m.close_terminal_session("term-1").unwrap();
    let record2 = m.get_session("term-1").unwrap();
    assert!(!record2.is_active);
    assert_eq!(m.get_active_sessions().len(), 0);
    // the generic close removes the record entirely
    m.close_session("term-1").unwrap();
    assert!(m.get_session("term-1").is_none());
    assert!(m.close_session("term-1").is_err());
}

#[test]
fn scripted_failures_surface_as_errors() {
    let mut m = connected_manager();
    m.create_terminal_session("term-1", 80, 24, 0).unwrap();
    m.disposable_scripts.push(ScriptedExec::Fail { message: "connection reset".to_string() });
    let r = m.execute_command("uptime", 1);
    assert!(r.is_err());
    assert_eq!(r.unwrap_err().message(), "connection reset");
}

#[test]
fn command_catalogue_add_toggle_remove() {
    let mut m = SSHManager::new();
    assert_eq!(m.get_commands().len(), 6);
    let favorites = m.get_favorite_commands();
    assert_eq!(favorites.len(), 5);
    assert!(favorites.iter().all(|c| c.favorite));

    let mut fresh = lovelyres::types::SSHCommand::default();
    fresh.id = String::new();
    fresh.name = "Kernel ring".to_string();
    fresh.command = "dmesg | tail".to_string();
    let id = m.add_command(fresh, 0).unwrap();
    assert_eq!(id.len(), 36);
    assert_eq!(m.get_commands().len(), 7);

    assert!(m.toggle_command_favorite(&id).unwrap());
    assert!(!m.toggle_command_favorite(&id).unwrap());
    assert!(m.toggle_command_favorite("ghost").is_err());

    m.remove_command(&id).unwrap();
    assert_eq!(m.get_commands().len(), 6);
    assert!(m.remove_command(&id).is_err());
}

#[test]
fn connection_catalogue_add_get_remove() {
    let mut m = SSHManager::new();
    let mut conn = lovelyres::types::SSHConnection::default();
    conn.id = String::new();
    conn.name = "lab".to_string();
    conn.host = "lab.example.net".to_string();
    let id = m.add_connection(conn).unwrap();
    assert_eq!(id.len(), 36);
    assert_eq!(m.get_connections().len(), 1);
    let copy = m.get_connection(&id).unwrap();
    assert_eq!(copy.host, "lab.example.net");
    assert!(m.get_connection("ghost").is_none());
    m.remove_connection(&id).unwrap();
    assert!(m.get_connections().is_empty());
    assert!(m.remove_connection(&id).is_err());
}

#[test]
fn environment_probe_reads_seven_answers_in_order() {
    let mut m = connected_manager();
    let answers = [
        "5.1.16(1)-release\n",
        "\\u@\\h:\\w\\$ \n",
        "/root\n",
        "/root\n",
        "root\n",
        "lab-host\n",
        "/usr/bin:/bin\n",
    ];
    for a in answers {
        m.current_session.as_mut().unwrap().push_result(ScriptedExec::Output {
            output: a.to_string(),
            exit_code: 0,
        });
    }
    let info = m.get_bash_environment_info(9000).unwrap();
    assert_eq!(info.shell_type, "bash");
    assert_eq!(info.bash_version, "5.1.16(1)-release");
    assert_eq!(info.pwd, "/root");
    assert_eq!(info.user, "root");
    assert_eq!(info.hostname, "lab-host");
    assert_eq!(info.path, "/usr/bin:/bin");
    assert_eq!(m.current_session.as_ref().unwrap().script.len(), 0);
}

#[test]
fn environment_probe_falls_back_to_sh() {
    let mut m = connected_manager();
    m.current_session.as_mut().unwrap().push_result(ScriptedExec::Fail {
        message: "bash: command not found".to_string(),
    });
    for _ in 0..6 {
        m.current_session.as_mut().unwrap().push_result(ScriptedExec::Output {
            output: "x\n".to_string(),
            exit_code: 0,
        });
    }
    let info = m.get_bash_environment_info(9000).unwrap();
    assert_eq!(info.shell_type, "sh");
    assert_eq!(info.bash_version, "sh (bash not available)");
}

#[test]
fn as_user_queries_travel_inside_the_privilege_wrapper() {
    let mut m = connected_manager();
    m.dashboard_session.as_mut().unwrap().push_result(ScriptedExec::Output {
        output: "ok\n".to_string(),
        exit_code: 0,
    });
    let out = m
        .execute_dashboard_command_as_user("echo it's me", Some("deploy"), 100)
        .unwrap();
    assert_eq!(
        out.command,
        "if command -v sudo &>/dev/null; then sudo -u deploy bash -c 'echo it'\\''s me'; else su - deploy -c 'echo it'\\''s me'; fi"
    );
    assert_eq!(out.output, "ok\n");

    // without a username the command travels as it is
    m.dashboard_session.as_mut().unwrap().push_result(ScriptedExec::Output {
        output: "plain\n".to_string(),
        exit_code: 0,
    });
    let plain = m.execute_dashboard_command_as_user("uptime", None, 200).unwrap();
    assert_eq!(plain.command, "uptime");

    // container queries take the fast path unchanged
    m.dashboard_session.as_mut().unwrap().push_result(ScriptedExec::Output {
        output: "CONTAINER ID\n".to_string(),
        exit_code: 0,
    });
    let docker = m.execute_docker_command("docker ps", 300).unwrap();
    assert_eq!(docker.command, "docker ps");
    assert_eq!(docker.output, "CONTAINER ID\n");
}

#[test]
fn shell_quoting_and_bash_detection() {
    assert_eq!(escape_shell_command("echo hi"), "'echo hi'");
    assert_eq!(escape_shell_command(""), "''");
    assert_eq!(escape_shell_command("it's"), "'it'\"'\"'s'");
    assert_eq!(shell_wrapped_command("bash", "echo hi"), "bash -lc 'echo hi'");
    assert!(is_bash_missing_error("Bash: Command Not Found"));
    assert!(is_bash_missing_error("sh: which: bash: not found"));
    assert!(!is_bash_missing_error("permission denied"));
}
