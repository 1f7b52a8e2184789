//! Behaviour of the supporting modules: credentials, settings, themes,
//! monitoring, text utilities and the shared data model.

use lovelyres::credentials::SSHConnectionManager;
use lovelyres::errors::LovelyResError;
use lovelyres::monitor::{HealthWarning, SSHDebugEvent, SSHDebugger, SessionStats};
use lovelyres::settings::{AppSettings, validate_settings, reset_settings};
use lovelyres::text::{contains_bytes, usize_to_string};
use lovelyres::theme::ThemeManager;
use lovelyres::types::{AppDataPaths, PaginatedResponse, PaginationParams, SSHConnection};

fn store() -> SSHConnectionManager {
    let paths = AppDataPaths::new("/tmp/appdata".to_string());
    SSHConnectionManager::new(paths, vec![7u8; 32]).unwrap()
}

#[test]
fn password_round_trips_through_the_credential_store() {
    let mgr = store();
    let sealed = mgr.encrypt_password("SECRET-REDACTED").unwrap();
    assert_ne!(sealed, "SECRET-REDACTED");
    let opened = mgr.decrypt_password(&sealed).unwrap();
    assert_eq!(opened, "SECRET-REDACTED");
}

#[test]
fn two_seals_of_one_password_differ_but_both_open() {
    let mgr = store();
    let a = mgr.encrypt_password("pass-phrase").unwrap();
    let b = mgr.encrypt_password("pass-phrase").unwrap();
    // fresh nonces make fresh ciphertexts
    assert_ne!(a, b);
    assert_eq!(mgr.decrypt_password(&a).unwrap(), "pass-phrase");
    assert_eq!(mgr.decrypt_password(&b).unwrap(), "pass-phrase");
}

#[test]
fn malformed_credentials_are_rejected() {
    let mgr = store();
    assert!(mgr.decrypt_password("not base64 at all!!!").is_err());
    assert!(mgr.decrypt_password("AAAA").is_err());
    let paths = AppDataPaths::new("/tmp/appdata".to_string());
    let short = SSHConnectionManager::new(paths, vec![1u8; 16]);
    assert!(matches!(short.unwrap_err(), LovelyResError::ConfigError(_)));
}

#[test]
fn app_data_paths_lay_out_the_standard_files() {
    let paths = AppDataPaths::new("/data/base".to_string());
    assert_eq!(paths.ssh_connections_file, "/data/base/ssh_connections.json");
    assert_eq!(paths.ssh_commands_file, "/data/base/ssh_commands.json");
    assert_eq!(paths.backups_dir, "/data/base/backups");
}

#[test]
fn default_settings_validate_and_resets_return_them() {
    let mut defaults = AppSettings::default();
    // the default disables the connection timeout, which the validator
    // refuses; everything else is in range
    assert!(validate_settings(&defaults).is_err());
    defaults.ssh.connection_timeout = 10000;
    assert!(validate_settings(&defaults).is_ok());
    let reset = reset_settings();
    assert_eq!(reset.theme, "light");
    assert_eq!(reset.default_ssh_port, 22);
}

#[test]
fn each_out_of_range_setting_is_refused() {
    let mut s = AppSettings::default();
    s.theme = "neon".to_string();
    assert!(validate_settings(&s).is_err());

    let mut s = AppSettings::default();
    s.language = "fr-FR".to_string();
    assert!(validate_settings(&s).is_err());

    let mut s = AppSettings::default();
    s.default_ssh_port = 0;
    assert!(validate_settings(&s).is_err());

    let mut s = AppSettings::default();
    s.terminal_font_size = 7;
    assert!(validate_settings(&s).is_err());

    let mut s = AppSettings::default();
    s.max_log_lines = 0;
    assert!(validate_settings(&s).is_err());

    let mut s = AppSettings::default();
    s.auto_save_interval = 999;
    assert!(validate_settings(&s).is_err());

    let mut s = AppSettings::default();
    s.security.session_timeout = 59999;
    assert!(validate_settings(&s).is_err());

    let mut s = AppSettings::default();
    s.ui.sidebar_width = 801;
    assert!(validate_settings(&s).is_err());

    let mut s = AppSettings::default();
    s.docker.refresh_interval = 60001;
    assert!(validate_settings(&s).is_err());

    let mut s = AppSettings::default();
    s.ssh.keep_alive_interval = 4999;
    assert!(validate_settings(&s).is_err());

    let mut s = AppSettings::default();
    s.ssh.connection_timeout = 999;
    assert!(validate_settings(&s).is_err());

    let mut s = AppSettings::default();
    s.ssh.max_retries = 11;
    assert!(validate_settings(&s).is_err());
}

#[test]
fn themes_cycle_light_dark_sakura() {
    let themes = ThemeManager::get_available_themes();
    assert_eq!(themes.len(), 3);
    assert_eq!(themes[0].name, "light");
    assert!(themes[1].is_dark);

    let mut s = AppSettings::default();
    assert_eq!(ThemeManager::get_current_theme(&s), "light");
    assert_eq!(ThemeManager::toggle_theme(&mut s), "dark");
    assert_eq!(ThemeManager::toggle_theme(&mut s), "sakura");
    assert_eq!(ThemeManager::toggle_theme(&mut s), "light");
    assert!(ThemeManager::set_current_theme(&mut s, "neon".to_string()).is_err());
    ThemeManager::set_current_theme(&mut s, "dark".to_string()).unwrap();
    assert_eq!(s.theme, "dark");
    ThemeManager::reset_to_default_theme(&mut s).unwrap();
    assert_eq!(s.theme, "light");
}

#[test]
fn theme_lookup_and_contrast() {
    assert!(ThemeManager::get_theme_config("dark").is_some());
    assert!(ThemeManager::get_theme_config("neon").is_none());
    assert!(ThemeManager::is_dark_theme("dark"));
    assert!(!ThemeManager::is_dark_theme("light"));
    assert_eq!(
        ThemeManager::get_contrast_color("dark", "bg-primary").unwrap(),
        "#ffffff"
    );
    assert_eq!(
        ThemeManager::get_contrast_color("sakura", "bg-primary").unwrap(),
        "#000000"
    );
    assert!(ThemeManager::get_contrast_color("neon", "bg-primary").is_none());
    assert!(ThemeManager::get_contrast_color("dark", "no-such-key").is_none());
}

#[test]
fn theme_validation_checks_names_keys_and_formats() {
    let good = ThemeManager::get_theme_config("light").unwrap();
    assert!(ThemeManager::validate_theme_config(&good).is_ok());

    let mut unnamed = ThemeManager::get_theme_config("light").unwrap();
    unnamed.name = String::new();
    assert!(ThemeManager::validate_theme_config(&unnamed).is_err());

    let mut gap = ThemeManager::get_theme_config("light").unwrap();
    gap.colors.retain(|p| p.0 != "bg-primary");
    assert!(ThemeManager::validate_theme_config(&gap).is_err());

    let mut odd = ThemeManager::get_theme_config("light").unwrap();
    odd.colors.push(("extra".to_string(), "blue".to_string()));
    assert!(ThemeManager::validate_theme_config(&odd).is_err());
}

#[test]
fn monitor_counts_events_and_bounds_the_log() {
    let mut d = SSHDebugger::new();
    d.max_events = 3;
    d.log_event(
        SSHDebugEvent::ConnectionEstablished { host: "h".to_string(), port: 22, duration_ms: 5 },
        0,
    );
    d.log_event(
        SSHDebugEvent::ConnectionFailed {
            host: "h".to_string(),
            port: 22,
            error: "refused".to_string(),
        },
        1,
    );
    d.log_event(
        SSHDebugEvent::InputSent {
            session_id: "s".to_string(),
            bytes: 40,
            priority: "Normal".to_string(),
        },
        2,
    );
    d.log_event(SSHDebugEvent::BufferOverflow { session_id: "s".to_string(), buffer_size: 9 }, 3);

    let m = d.get_metrics();
    assert_eq!(m.total_connections, 1);
    assert_eq!(m.failed_connections, 1);
    assert_eq!(m.total_input_bytes, 40);
    assert_eq!(m.buffer_overflows, 1);
    // the log kept only the newest three entries
    assert_eq!(d.events.len(), 3);
    assert_eq!(d.events[0].0, 1);
    let recent = d.get_recent_events(2);
    assert_eq!(recent.len(), 2);
    assert_eq!(recent[0].0, 2);

    d.set_debug_enabled(false);
    d.log_event(SSHDebugEvent::KeepAliveSuccess { session_id: "s".to_string() }, 4);
    assert_eq!(d.events.len(), 3);

    d.clear();
    assert!(d.events.is_empty());
    assert_eq!(d.get_metrics().total_connections, 0);
}

#[test]
fn health_warnings_follow_the_counters() {
    let mut d = SSHDebugger::new();
    assert!(d.check_health(0).is_empty());
    d.metrics.total_connections = 4;
    d.metrics.failed_connections = 1;
    // a quarter failed: over the one-fifth line
    let warnings = d.check_health(0);
    assert!(warnings.contains(&HealthWarning::HighConnectionFailureRate));

    d.metrics.flow_control_activations = 11;
    d.metrics.buffer_overflows = 2;
    let idle = SessionStats {
        created_at_ms: 0,
        last_activity_ms: 0,
        input_bytes: 0,
        output_bytes: 0,
        error_count: 0,
        flow_control_count: 0,
        retry_count: 0,
    };
    let mut busy = idle.clone();
    busy.last_activity_ms = 300000;
    d.session_stats.push(("quiet-one".to_string(), idle.clone()));
    d.session_stats.push(("active".to_string(), busy));
    d.session_stats.push(("quiet-two".to_string(), idle));
    let warnings = d.check_health(300001);
    assert!(warnings.contains(&HealthWarning::FrequentFlowControl));
    assert!(warnings.contains(&HealthWarning::BufferOverflowsSeen));
    // one warning per stale session, each naming it
    assert!(warnings.contains(&HealthWarning::StaleSession("quiet-one".to_string())));
    assert!(warnings.contains(&HealthWarning::StaleSession("quiet-two".to_string())));
    assert!(!warnings.contains(&HealthWarning::StaleSession("active".to_string())));
    let stale_count = warnings
        .iter()
        .filter(|w| matches!(w, HealthWarning::StaleSession(_)))
        .count();
    assert_eq!(stale_count, 2);
}

#[test]
fn pagination_computes_the_page_count() {
    let p: PaginatedResponse<u32> = PaginatedResponse::new(vec![1, 2, 3], 45, 1, 20);
    assert_eq!(p.total_pages, 3);
    let exact: PaginatedResponse<u32> = PaginatedResponse::new(vec![], 40, 1, 20);
    assert_eq!(exact.total_pages, 2);
    let none: PaginatedResponse<u32> = PaginatedResponse::new(vec![], 0, 1, 20);
    assert_eq!(none.total_pages, 0);
    let zero_size: PaginatedResponse<u32> = PaginatedResponse::new(vec![], 5, 1, 0);
    assert_eq!(zero_size.total_pages, u32::MAX);
    let defaults = PaginationParams::default();
    assert_eq!(defaults.page, 1);
    assert_eq!(defaults.page_size, 20);
    assert_eq!(defaults.sort_order.as_deref(), Some("asc"));
}

#[test]
fn connections_migrate_legacy_accounts() {
    let mut conn = SSHConnection::default();
    assert_eq!(conn.host, "localhost");
    assert_eq!(conn.id.len(), 36);
    conn.username = "root".to_string();
    conn.migrate_legacy_account();
    assert_eq!(conn.accounts.len(), 1);
    assert!(conn.accounts[0].is_default);
    assert_eq!(conn.active_account.as_deref(), Some("root"));
    // migrating again changes nothing
    conn.migrate_legacy_account();
    assert_eq!(conn.accounts.len(), 1);

    assert!(conn.set_active_account("root"));
    assert!(!conn.set_active_account("nobody"));
    assert_eq!(conn.get_active_account().unwrap().username, "root");
    assert_eq!(conn.get_default_account().unwrap().username, "root");
}

#[test]
fn text_utilities_render_and_search() {
    assert_eq!(usize_to_string(0), "0");
    assert_eq!(usize_to_string(7), "7");
    assert_eq!(usize_to_string(12345), "12345");
    assert_eq!(usize_to_string(1048576), "1048576");
    assert!(contains_bytes(b"hello world", b"o wor"));
    assert!(contains_bytes(b"hello", b""));
    assert!(!contains_bytes(b"hello", b"world"));
    assert!(!contains_bytes(b"hi", b"high"));
}

#[test]
fn error_messages_carry_their_text() {
    let e = LovelyResError::ConnectionError("no route".to_string());
    assert_eq!(e.message(), "no route");
    let n = LovelyResError::NotFound("gone".to_string());
    assert_eq!(n.message(), "gone");
}
