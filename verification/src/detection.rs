//! Result shapes of the host-inspection checks.
//!
//! The checks themselves run shell commands over the session pool and
//! read text back; the application performs them and fills these records.

use vstd::prelude::*;

verus! {

/// One listening port.
#[derive(Debug, Clone)]
pub struct PortInfo {
    pub protocol: String,
    pub local_address: String,
    pub port: u16,
    pub process: Option<String>,
    pub pid: Option<u32>,
}

/// Outcome of a port scan.
#[derive(Debug, Clone)]
pub struct PortScanResult {
    pub open_ports: Vec<PortInfo>,
    pub total_count: usize,
    pub risky_ports: Vec<u16>,
    pub scan_time: String,
}

/// One local account.
#[derive(Debug, Clone)]
pub struct UserInfo {
    pub username: String,
    pub uid: u32,
    pub gid: u32,
    pub home_dir: String,
    pub shell: String,
    pub is_system_user: bool,
    pub has_login_shell: bool,
    pub last_login: Option<String>,
}

/// Outcome of an account audit.
#[derive(Debug, Clone)]
pub struct UserAuditResult {
    pub users: Vec<UserInfo>,
    pub total_count: usize,
    pub login_users: usize,
    pub system_users: usize,
    pub suspicious_users: Vec<String>,
}

/// Outcome of a backdoor sweep.
#[derive(Debug, Clone)]
pub struct BackdoorScanResult {
    pub suspicious_processes: Vec<String>,
    pub suspicious_files: Vec<String>,
    pub suspicious_connections: Vec<String>,
    pub crontab_entries: Vec<String>,
    pub risk_level: String,
}

/// Outcome of a file-permission review.
#[derive(Debug, Clone)]
pub struct FilePermissionResult {
    pub world_writable_files: Vec<String>,
    pub suid_files: Vec<String>,
    pub sgid_files: Vec<String>,
    pub risky_configs: Vec<String>,
}

/// Outcome of a remote-login configuration review.
#[derive(Debug, Clone)]
pub struct SSHAuditResult {
    pub root_login_enabled: bool,
    pub password_auth_enabled: bool,
    pub empty_password_allowed: bool,
    pub protocol_version: String,
    pub listening_port: u16,
    pub issues: Vec<String>,
}

/// Outcome of a firewall review.
#[derive(Debug, Clone)]
pub struct FirewallCheckResult {
    pub firewall_active: bool,
    pub firewall_type: String,
    pub rules_count: usize,
    pub open_ports: Vec<u16>,
    pub issues: Vec<String>,
}

/// One finding of a check, with its severity.
#[derive(Debug, Clone)]
pub struct SecurityIssue {
    pub severity: String,
    pub category: String,
    pub description: String,
    pub recommendation: String,
}

/// Outcome shape shared by the remaining checks.
#[derive(Debug, Clone)]
pub struct GenericDetectionResult {
    pub check_name: String,
    pub passed: bool,
    pub issues: Vec<SecurityIssue>,
    pub raw_output: String,
    pub summary: String,
}

} // verus!
