//! Behaviour of the log-command builders on concrete inputs.

use lovelyres::log_commands::{
    generate_journalctl_command, generate_list_log_files_command, generate_log_file_info_command,
    generate_log_read_command,
};

#[test]
fn first_page_without_filters_tails_directly() {
    let cmd = generate_log_read_command("/var/log/auth.log", 1, 100, None, None);
    assert_eq!(
        cmd,
        "tail -n 100 /var/log/auth.log 2>/dev/null || echo 'Log file not found'"
    );
}

#[test]
fn later_pages_without_filters_slice_with_head() {
    let cmd = generate_log_read_command("/var/log/syslog", 3, 50, None, None);
    assert_eq!(
        cmd,
        "tail -n 150 /var/log/syslog 2>/dev/null | head -n 50 || echo 'Log file not found'"
    );
}

#[test]
fn blank_filters_count_as_absent() {
    let cmd = generate_log_read_command("/var/log/syslog", 1, 10, Some("   "), Some("\t\n"));
    assert_eq!(
        cmd,
        "tail -n 10 /var/log/syslog 2>/dev/null || echo 'Log file not found'"
    );
}

#[test]
fn filters_build_a_grep_pipeline() {
    let cmd = generate_log_read_command("/var/log/auth.log", 1, 20, Some(" Failed "), None);
    assert_eq!(
        cmd,
        "cat /var/log/auth.log 2>/dev/null | grep -iE 'Failed' | tail -n 20 || echo 'No matching entries'"
    );
    let both = generate_log_read_command("/var/log/auth.log", 2, 20, Some("sshd"), Some("Nov 22"));
    assert_eq!(
        both,
        "cat /var/log/auth.log 2>/dev/null | grep -iE 'sshd' | grep 'Nov 22' | tail -n 40 | head -n 20 || echo 'No matching entries'"
    );
}

#[test]
fn filter_quoting_cannot_escape_the_pattern() {
    let cmd = generate_log_read_command("/var/log/syslog", 1, 5, Some("it's $HOME"), None);
    assert_eq!(
        cmd,
        "cat /var/log/syslog 2>/dev/null | grep -iE 'it'\\''s \\$HOME' | tail -n 5 || echo 'No matching entries'"
    );
}

#[test]
fn journal_query_folds_unit_bounds_and_filter() {
    let plain = generate_journalctl_command(1, 100, None, None, None, None);
    assert_eq!(
        plain,
        "journalctl --no-pager -n 100 2>/dev/null || echo 'journalctl not available'"
    );
    let full = generate_journalctl_command(
        2,
        50,
        Some("sshd"),
        Some("error"),
        Some("2 days ago"),
        Some("now"),
    );
    assert_eq!(
        full,
        "journalctl --no-pager -u sshd --since \"2 days ago\" --until \"now\" | grep -iE 'error' -n 100 | head -n 50 2>/dev/null || echo 'journalctl not available'"
    );
}

#[test]
fn listing_and_info_commands_are_fixed_shapes() {
    let list = generate_list_log_files_command();
    assert!(list.starts_with("find /var/log -maxdepth 2"));
    assert!(list.ends_with("| head -50"));
    let info = generate_log_file_info_command("/var/log/kern.log");
    assert_eq!(
        info,
        "stat -c \"size:%s|modified:%y|readable:yes\" /var/log/kern.log 2>/dev/null || echo \"readable:no\""
    );
}
