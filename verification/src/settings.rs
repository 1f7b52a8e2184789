//! Application settings: the stored preferences and the rules that keep
//! them within sane bounds.
//!
//! Loading and saving the settings file is the application's business;
//! this module owns the values, their defaults and their validation.

use vstd::prelude::*;

use crate::text::str_eq;

verus! {

/// Notification preferences.
#[derive(Debug, Clone)]
pub struct NotificationSettings {
    pub enabled: bool,
    pub connection_status: bool,
    pub command_completion: bool,
    pub error_alerts: bool,
}

impl Default for NotificationSettings {
    /// Notifications on, command completion quiet.
    fn default() -> (r: Self)
        ensures
            r.enabled,
            r.connection_status,
            !r.command_completion,
            r.error_alerts,
    {
        NotificationSettings {
            enabled: true,
            connection_status: true,
            command_completion: false,
            error_alerts: true,
        }
    }
}

/// Security preferences.
#[derive(Debug, Clone)]
pub struct SecuritySettings {
    pub save_passwords: bool,
    pub session_timeout: u32,
    pub require_confirmation: bool,
}

impl Default for SecuritySettings {
    /// Passwords not saved; a day-long session timeout.
    fn default() -> (r: Self)
        ensures
            !r.save_passwords,
            r.session_timeout == 86400000,
            !r.require_confirmation,
    {
        SecuritySettings {
            save_passwords: false,
            session_timeout: 86400000,
            require_confirmation: false,
        }
    }
}

/// Interface preferences.
#[derive(Debug, Clone)]
pub struct UISettings {
    pub sidebar_width: u32,
    pub show_status_bar: bool,
    pub compact_mode: bool,
    pub animations_enabled: bool,
}

impl Default for UISettings {
    /// A 280-pixel sidebar with the status bar shown.
    fn default() -> (r: Self)
        ensures
            r.sidebar_width == 280,
            r.show_status_bar,
            !r.compact_mode,
            r.animations_enabled,
    {
        UISettings {
            sidebar_width: 280,
            show_status_bar: true,
            compact_mode: false,
            animations_enabled: true,
        }
    }
}

/// Container monitoring preferences.
#[derive(Debug, Clone)]
pub struct DockerSettings {
    pub auto_refresh: bool,
    pub refresh_interval: u32,
    pub show_system_containers: bool,
}

impl Default for DockerSettings {
    /// Refresh every five seconds, system containers hidden.
    fn default() -> (r: Self)
        ensures
            r.auto_refresh,
            r.refresh_interval == 5000,
            !r.show_system_containers,
    {
        DockerSettings { auto_refresh: true, refresh_interval: 5000, show_system_containers: false }
    }
}

/// Transport preferences.
#[derive(Debug, Clone)]
pub struct SSHSettings {
    pub keep_alive_interval: u32,
    pub connection_timeout: u32,
    pub max_retries: u32,
}

impl Default for SSHSettings {
    /// Keepalive every thirty seconds, no connection timeout, three
    /// retries.
    fn default() -> (r: Self)
        ensures
            r.keep_alive_interval == 30000,
            r.connection_timeout == 0,
            r.max_retries == 3,
    {
        SSHSettings { keep_alive_interval: 30000, connection_timeout: 0, max_retries: 3 }
    }
}

/// All stored preferences.
#[derive(Debug, Clone)]
pub struct AppSettings {
    pub theme: String,
    pub language: String,
    pub auto_connect: bool,
    pub default_ssh_port: u16,
    pub terminal_font: String,
    pub terminal_font_size: u16,
    pub max_log_lines: u32,
    pub auto_save_interval: u32,
    pub notifications: NotificationSettings,
    pub security: SecuritySettings,
    pub ui: UISettings,
    pub docker: DockerSettings,
    pub ssh: SSHSettings,
    /// Assistant preferences, kept as raw serialized text so their shape
    /// can change without breaking the stored file.
    pub ai: Option<String>,
}

impl Default for AppSettings {
    /// The light theme on the standard port with everything else at its
    /// component default.
    fn default() -> (r: Self)
        ensures
            r.theme@ == "light"@,
            r.language@ == "zh-CN"@,
            !r.auto_connect,
            r.default_ssh_port == 22,
            r.terminal_font@ == "Monaco, Consolas, monospace"@,
            r.terminal_font_size == 14,
            r.max_log_lines == 1000,
            r.auto_save_interval == 30000,
            r.notifications == (NotificationSettings {
                enabled: true,
                connection_status: true,
                command_completion: false,
                error_alerts: true,
            }),
            r.security == (SecuritySettings {
                save_passwords: false,
                session_timeout: 86400000,
                require_confirmation: false,
            }),
            r.ui == (UISettings {
                sidebar_width: 280,
                show_status_bar: true,
                compact_mode: false,
                animations_enabled: true,
            }),
            r.docker == (DockerSettings {
                auto_refresh: true,
                refresh_interval: 5000,
                show_system_containers: false,
            }),
            r.ssh == (SSHSettings {
                keep_alive_interval: 30000,
                connection_timeout: 0,
                max_retries: 3,
            }),
            r.ai is None,
    {
        AppSettings {
            theme: "light".to_owned(),
            language: "zh-CN".to_owned(),
            auto_connect: false,
            default_ssh_port: 22,
            terminal_font: "Monaco, Consolas, monospace".to_owned(),
            terminal_font_size: 14,
            max_log_lines: 1000,
            auto_save_interval: 30000,
            notifications: NotificationSettings::default(),
            security: SecuritySettings::default(),
            ui: UISettings::default(),
            docker: DockerSettings::default(),
            ssh: SSHSettings::default(),
            ai: None,
        }
    }
}

/// Every rule a stored settings value must satisfy.
pub open spec fn spec_settings_valid(s: AppSettings) -> bool {
    &&& (s.theme@ == "light"@ || s.theme@ == "dark"@ || s.theme@ == "sakura"@)
    &&& (s.language@ == "zh-CN"@ || s.language@ == "en-US"@)
    &&& s.default_ssh_port != 0
    &&& 8 <= s.terminal_font_size <= 72
    &&& 1 <= s.max_log_lines <= 100000
    &&& 1000 <= s.auto_save_interval <= 3600000
    &&& 60000 <= s.security.session_timeout <= 86400000
    &&& 200 <= s.ui.sidebar_width <= 800
    &&& 1000 <= s.docker.refresh_interval <= 60000
    &&& 5000 <= s.ssh.keep_alive_interval <= 300000
    &&& 1000 <= s.ssh.connection_timeout <= 600000
    &&& 1 <= s.ssh.max_retries <= 10
}

/// Checks a settings value against every stored-value rule.
pub fn validate_settings(settings: &AppSettings) -> (r: Result<(), String>)
    ensures
        r is Ok <==> spec_settings_valid(*settings),
{
    if !(str_eq(settings.theme.as_str(), "light") || str_eq(settings.theme.as_str(), "dark")
        || str_eq(settings.theme.as_str(), "sakura")) {
        return Err("Invalid theme setting".to_owned());
    }
    if !(str_eq(settings.language.as_str(), "zh-CN") || str_eq(
        settings.language.as_str(),
        "en-US",
    )) {
        return Err("Invalid language setting".to_owned());
    }
    if settings.default_ssh_port == 0 {
        return Err("Invalid SSH port setting".to_owned());
    }
    if settings.terminal_font_size < 8 || settings.terminal_font_size > 72 {
        return Err("Invalid terminal font size setting".to_owned());
    }
    if settings.max_log_lines == 0 || settings.max_log_lines > 100000 {
        return Err("Invalid maximum log line setting".to_owned());
    }
    if settings.auto_save_interval < 1000 || settings.auto_save_interval > 3600000 {
        return Err("Invalid auto-save interval setting".to_owned());
    }
    if settings.security.session_timeout < 60000 || settings.security.session_timeout > 86400000 {
        return Err("Invalid session timeout setting".to_owned());
    }
    if settings.ui.sidebar_width < 200 || settings.ui.sidebar_width > 800 {
        return Err("Invalid sidebar width setting".to_owned());
    }
    if settings.docker.refresh_interval < 1000 || settings.docker.refresh_interval > 60000 {
        return Err("Invalid container refresh interval setting".to_owned());
    }
    if settings.ssh.keep_alive_interval < 5000 || settings.ssh.keep_alive_interval > 300000 {
        return Err("Invalid SSH keepalive interval setting".to_owned());
    }
    if settings.ssh.connection_timeout < 1000 || settings.ssh.connection_timeout > 600000 {
        return Err("Invalid SSH connection timeout setting".to_owned());
    }
    if settings.ssh.max_retries == 0 || settings.ssh.max_retries > 10 {
        return Err("Invalid SSH retry limit setting".to_owned());
    }
    Ok(())
}

/// The settings value a reset writes back: every field at its default.
pub fn reset_settings() -> (r: AppSettings)
    ensures
        r.theme@ == "light"@,
        r.language@ == "zh-CN"@,
        !r.auto_connect,
        r.default_ssh_port == 22,
        r.terminal_font@ == "Monaco, Consolas, monospace"@,
        r.terminal_font_size == 14,
        r.max_log_lines == 1000,
        r.auto_save_interval == 30000,
        r.notifications == (NotificationSettings {
            enabled: true,
            connection_status: true,
            command_completion: false,
            error_alerts: true,
        }),
        r.security == (SecuritySettings {
            save_passwords: false,
            session_timeout: 86400000,
            require_confirmation: false,
        }),
        r.ui == (UISettings {
            sidebar_width: 280,
            show_status_bar: true,
            compact_mode: false,
            animations_enabled: true,
        }),
        r.docker == (DockerSettings {
            auto_refresh: true,
            refresh_interval: 5000,
            show_system_containers: false,
        }),
        r.ssh == (SSHSettings { keep_alive_interval: 30000, connection_timeout: 0, max_retries: 3 }),
        r.ai is None,
{
    AppSettings::default()
}

} // verus!
