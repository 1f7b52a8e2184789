//! Shared data model: connection configurations, stored commands,
//! container metadata and pagination.
//!
//! Timestamps are plain milliseconds and paths plain strings; the
//! application layer converts to and from its clock and filesystem types.

use vstd::prelude::*;

use vstd::string::StringExecFns;

use crate::ids::uuid_v4_string;

verus! {

/// Filesystem layout of the application's data directory.
#[derive(Debug, Clone)]
pub struct AppDataPaths {
    pub app_data_dir: String,
    pub ssh_connections_file: String,
    pub ssh_commands_file: String,
    pub docker_configs_file: String,
    pub logs_dir: String,
    pub temp_dir: String,
    pub backups_dir: String,
}

impl AppDataPaths {
    /// Lays the standard files and folders out under `app_data_dir`;
    /// the application creates the directories themselves.
    pub fn new(app_data_dir: String) -> (r: Self)
        ensures
            r.app_data_dir == app_data_dir,
            r.ssh_connections_file@ == app_data_dir@ + "/ssh_connections.json"@,
            r.ssh_commands_file@ == app_data_dir@ + "/ssh_commands.json"@,
            r.docker_configs_file@ == app_data_dir@ + "/docker_configs.json"@,
            r.logs_dir@ == app_data_dir@ + "/logs"@,
            r.temp_dir@ == app_data_dir@ + "/temp"@,
            r.backups_dir@ == app_data_dir@ + "/backups"@,
    {
        Self {
            ssh_connections_file: app_data_dir.clone().concat("/ssh_connections.json"),
            ssh_commands_file: app_data_dir.clone().concat("/ssh_commands.json"),
            docker_configs_file: app_data_dir.clone().concat("/docker_configs.json"),
            logs_dir: app_data_dir.clone().concat("/logs"),
            temp_dir: app_data_dir.clone().concat("/temp"),
            backups_dir: app_data_dir.clone().concat("/backups"),
            app_data_dir,
        }
    }
}

/// One stored login for a remote host.
#[derive(Debug, Clone)]
pub struct SSHAccountCredential {
    pub username: String,
    /// "password", "key" or "certificate".
    pub auth_type: String,
    /// Password sealed by the credential store, base64-encoded.
    pub encrypted_password: Option<String>,
    pub key_path: Option<String>,
    pub key_passphrase: Option<String>,
    pub certificate_path: Option<String>,
    pub is_default: bool,
    pub description: Option<String>,
}

/// A stored connection: host, port and its accounts.
#[derive(Debug, Clone)]
pub struct SSHConnection {
    pub id: String,
    pub name: String,
    pub host: String,
    pub port: u16,
    /// Single-account fields kept for data written by older versions.
    pub username: String,
    pub auth_type: String,
    pub encrypted_password: Option<String>,
    pub key_path: Option<String>,
    pub key_passphrase: Option<String>,
    pub certificate_path: Option<String>,
    pub accounts: Vec<SSHAccountCredential>,
    pub active_account: Option<String>,
    pub is_connected: bool,
    /// Milliseconds since the epoch, if ever connected.
    pub last_connected: Option<u64>,
    pub tags: Option<Vec<String>>,
}

impl SSHConnection {
    /// Moves single-account data written by older versions into the
    /// account list, marking it the default; connections already carrying
    /// accounts, or carrying no username, are left alone.
    pub fn migrate_legacy_account(&mut self)
        ensures
            (old(self).accounts@.len() > 0 || old(self).username@.len() == 0) ==> *final(self)
                == *old(self),
            (old(self).accounts@.len() == 0 && old(self).username@.len() > 0) ==> (final(self).accounts@.len() == 1 && final(self).accounts@[0].username == old(self).username
                && final(self).accounts@[0].auth_type == old(self).auth_type && final(self).accounts@[0].encrypted_password == old(self).encrypted_password && final(self).accounts@[0].is_default && (final(self).active_account matches Some(u) && u == old(self).username)),
    {
        if self.accounts.len() == 0 && !self.username.as_str().is_empty() {
            let account = SSHAccountCredential {
                username: self.username.clone(),
                auth_type: self.auth_type.clone(),
                encrypted_password: clone_opt_string(&self.encrypted_password),
                key_path: clone_opt_string(&self.key_path),
                key_passphrase: clone_opt_string(&self.key_passphrase),
                certificate_path: clone_opt_string(&self.certificate_path),
                is_default: true,
                description: Some("Default account migrated from legacy data".to_owned()),
            };
            self.accounts.push(account);
            self.active_account = Some(self.username.clone());
        }
    }

    /// The first account marked default, if any.
    pub fn get_default_account(&self) -> (r: Option<&SSHAccountCredential>)
        ensures
            match r {
                Some(a) => exists|i: int|
                    0 <= i < self.accounts@.len() && (#[trigger] self.accounts@[i]).is_default && *a
                        == self.accounts@[i],
                None => forall|i: int|
                    0 <= i < self.accounts@.len() ==> !(#[trigger] self.accounts@[i]).is_default,
            },
    {
        let mut i: usize = 0;
        while i < self.accounts.len()
            invariant
                0 <= i <= self.accounts@.len(),
                forall|j: int| 0 <= j < i ==> !(#[trigger] self.accounts@[j]).is_default,
            decreases self.accounts@.len() - i,
        {
            if self.accounts[i].is_default {
                return Some(&self.accounts[i]);
            }
            i = i + 1;
        }
        None
    }

    /// The account selected as active, or the default one.
    pub fn get_active_account(&self) -> (r: Option<&SSHAccountCredential>)
        ensures
            ({
                match self.active_account {
                    Some(u) => match r {
                        Some(a) => a.username@ == u@,
                        None => forall|i: int|
                            0 <= i < self.accounts@.len() ==> (
                            #[trigger] self.accounts@[i]).username@ != u@,
                    },
                    None => match r {
                        Some(a) => a.is_default,
                        None => forall|i: int|
                            0 <= i < self.accounts@.len() ==> !(
                            #[trigger] self.accounts@[i]).is_default,
                    },
                }
            }),
    {
        match &self.active_account {
            Some(username) => {
                let mut i: usize = 0;
                while i < self.accounts.len()
                    invariant
                        0 <= i <= self.accounts@.len(),
                        self.active_account == Some(*username),
                        forall|j: int|
                            0 <= j < i ==> (#[trigger] self.accounts@[j]).username@ != username@,
                    decreases self.accounts@.len() - i,
                {
                    if crate::text::str_eq(self.accounts[i].username.as_str(), username.as_str()) {
                        proof {
                            let w = i as int;
                            assert(0 <= w < self.accounts@.len() && (#[trigger] self.accounts@[w]).username@
                                == username@);
                        }
                        return Some(&self.accounts[i]);
                    }
                    i = i + 1;
                }
                None
            },
            None => self.get_default_account(),
        }
    }

    /// Selects `username` as the active account; reports whether it is
    /// one of the stored accounts.
    pub fn set_active_account(&mut self, username: &str) -> (r: bool)
        ensures
            r == exists|i: int|
                0 <= i < old(self).accounts@.len() && (#[trigger] old(self).accounts@[i]).username@ == username@,
            r ==> (final(self).active_account matches Some(u) && u@ == username@),
            !r ==> *final(self) == *old(self),
            final(self).accounts == old(self).accounts,
    {
        let mut i: usize = 0;
        while i < self.accounts.len()
            invariant
                0 <= i <= self.accounts@.len(),
                *self == *old(self),
                forall|j: int| 0 <= j < i ==> (#[trigger] self.accounts@[j]).username@ != username@,
            decreases self.accounts@.len() - i,
        {
            if crate::text::str_eq(self.accounts[i].username.as_str(), username) {
                proof {
                    let w = i as int;
                    assert(0 <= w < old(self).accounts@.len() && (#[trigger] old(
                        self,
                    ).accounts@[w]).username@ == username@);
                }
                self.active_account = Some(username.to_owned());
                return true;
            }
            i = i + 1;
        }
        false
    }
}

/// A clone of an optional string.
pub fn clone_opt_string(o: &Option<String>) -> (r: Option<String>)
    ensures
        r == *o,
{
    match o {
        Some(s) => Some(s.clone()),
        None => None,
    }
}

/// A clone of a list of strings.
pub fn clone_vec_string(v: &Vec<String>) -> (r: Vec<String>)
    ensures
        r@ == v@,
{
    let mut out: Vec<String> = Vec::new();
    let mut i: usize = 0;
    while i < v.len()
        invariant
            0 <= i <= v@.len(),
            out@ == v@.take(i as int),
        decreases v@.len() - i,
    {
        out.push(v[i].clone());
        proof {
            assert(v@.take(i + 1) =~= v@.take(i as int).push(v@[i as int]));
        }
        i = i + 1;
    }
    proof {
        assert(v@.take(v@.len() as int) =~= v@);
    }
    out
}

impl SSHAccountCredential {
    /// A field-for-field copy.
    pub fn duplicate(&self) -> (r: Self)
        ensures
            r == *self,
    {
        SSHAccountCredential {
            username: self.username.clone(),
            auth_type: self.auth_type.clone(),
            encrypted_password: clone_opt_string(&self.encrypted_password),
            key_path: clone_opt_string(&self.key_path),
            key_passphrase: clone_opt_string(&self.key_passphrase),
            certificate_path: clone_opt_string(&self.certificate_path),
            is_default: self.is_default,
            description: clone_opt_string(&self.description),
        }
    }
}

/// Two connection configurations carrying the same data; the list fields
/// are compared by contents.
pub open spec fn same_connection(a: SSHConnection, b: SSHConnection) -> bool {
    &&& a.id == b.id
    &&& a.name == b.name
    &&& a.host == b.host
    &&& a.port == b.port
    &&& a.username == b.username
    &&& a.auth_type == b.auth_type
    &&& a.encrypted_password == b.encrypted_password
    &&& a.key_path == b.key_path
    &&& a.key_passphrase == b.key_passphrase
    &&& a.certificate_path == b.certificate_path
    &&& a.accounts@ == b.accounts@
    &&& a.active_account == b.active_account
    &&& a.is_connected == b.is_connected
    &&& a.last_connected == b.last_connected
    &&& (match (a.tags, b.tags) {
        (Some(x), Some(y)) => x@ == y@,
        (None, None) => true,
        _ => false,
    })
}

impl SSHConnection {
    /// A copy carrying the same data.
    pub fn duplicate(&self) -> (r: Self)
        ensures
            same_connection(r, *self),
    {
        let mut accounts: Vec<SSHAccountCredential> = Vec::new();
        let mut i: usize = 0;
        while i < self.accounts.len()
            invariant
                0 <= i <= self.accounts@.len(),
                accounts@ == self.accounts@.take(i as int),
            decreases self.accounts@.len() - i,
        {
            accounts.push(self.accounts[i].duplicate());
            proof {
                assert(self.accounts@.take(i + 1) =~= self.accounts@.take(i as int).push(
                    self.accounts@[i as int],
                ));
            }
            i = i + 1;
        }
        proof {
            assert(self.accounts@.take(self.accounts@.len() as int) =~= self.accounts@);
        }
        let tags: Option<Vec<String>> = match &self.tags {
            Some(t) => Some(clone_vec_string(t)),
            None => None,
        };
        let r = SSHConnection {
            id: self.id.clone(),
            name: self.name.clone(),
            host: self.host.clone(),
            port: self.port,
            username: self.username.clone(),
            auth_type: self.auth_type.clone(),
            encrypted_password: clone_opt_string(&self.encrypted_password),
            key_path: clone_opt_string(&self.key_path),
            key_passphrase: clone_opt_string(&self.key_passphrase),
            certificate_path: clone_opt_string(&self.certificate_path),
            accounts,
            active_account: clone_opt_string(&self.active_account),
            is_connected: self.is_connected,
            last_connected: self.last_connected,
            tags,
        };
        proof {
            assert(r.accounts@ =~= self.accounts@);
        }
        r
    }
}

impl SSHCommand {
    /// A field-for-field copy.
    pub fn duplicate(&self) -> (r: Self)
        ensures
            r == *self,
    {
        SSHCommand {
            id: self.id.clone(),
            name: self.name.clone(),
            command: self.command.clone(),
            description: self.description.clone(),
            category: self.category.clone(),
            favorite: self.favorite,
        }
    }
}

impl Default for SSHConnection {
    /// A blank localhost connection under a fresh random id.
    fn default() -> (r: Self)
        ensures
            r.id@.len() == 36,
            r.name@ == "New connection"@,
            r.host@ == "localhost"@,
            r.port == 22,
            r.username@ == "root"@,
            r.auth_type@ == "password"@,
            r.encrypted_password is None,
            r.accounts@.len() == 0,
            r.active_account is None,
            !r.is_connected,
            r.last_connected is None,
            r.tags is None,
    {
        SSHConnection {
            id: uuid_v4_string(),
            name: "New connection".to_owned(),
            host: "localhost".to_owned(),
            port: 22,
            username: "root".to_owned(),
            auth_type: "password".to_owned(),
            encrypted_password: None,
            key_path: None,
            key_passphrase: None,
            certificate_path: None,
            accounts: Vec::new(),
            active_account: None,
            is_connected: false,
            last_connected: None,
            tags: None,
        }
    }
}

/// A stored shell command with its catalogue metadata.
#[derive(Debug, Clone)]
pub struct SSHCommand {
    pub id: String,
    pub name: String,
    pub command: String,
    pub description: String,
    pub category: String,
    pub favorite: bool,
}

impl Default for SSHCommand {
    /// An example command under a fresh random id.
    fn default() -> (r: Self)
        ensures
            r.id@.len() == 36,
            r.name@ == "New command"@,
            r.command@ == "echo 'Hello World'"@,
            !r.favorite,
    {
        SSHCommand {
            id: uuid_v4_string(),
            name: "New command".to_owned(),
            command: "echo 'Hello World'".to_owned(),
            description: "Example command".to_owned(),
            category: "Other".to_owned(),
            favorite: false,
        }
    }
}

/// Port published by a container.
#[derive(Debug, Clone)]
pub struct DockerPortMapping {
    pub ip: Option<String>,
    pub private_port: String,
    pub public_port: Option<String>,
    pub protocol: String,
}

/// Network a container is attached to.
#[derive(Debug, Clone)]
pub struct DockerNetworkAttachment {
    pub name: String,
    pub network_id: Option<String>,
    pub endpoint_id: Option<String>,
    pub mac_address: Option<String>,
    pub ipv4_address: Option<String>,
    pub ipv6_address: Option<String>,
}

/// Mount point inside a container.
#[derive(Debug, Clone)]
pub struct DockerMountInfo {
    pub mount_type: String,
    pub source: Option<String>,
    pub destination: String,
    pub mode: Option<String>,
    pub rw: bool,
}

/// Fast health indicators for a container.
#[derive(Debug, Clone)]
pub struct DockerQuickCheck {
    pub network_attached: bool,
    pub privileged: bool,
    pub health: Option<String>,
}

/// Outcome of a container action.
#[derive(Debug, Clone)]
pub struct DockerActionResult {
    pub success: bool,
    pub message: String,
    pub updated_state: Option<String>,
    pub updated_status: Option<String>,
}

/// Options for a container log query.
#[derive(Debug, Clone)]
pub struct DockerLogsOptions {
    pub tail: Option<u32>,
    pub since: Option<String>,
    pub timestamps: bool,
    pub stdout: bool,
    pub stderr: bool,
}

impl Default for DockerLogsOptions {
    /// The last five hundred lines of both streams, without timestamps.
    fn default() -> (r: Self)
        ensures
            r.tail == Some(500u32),
            r.since is None,
            !r.timestamps,
            r.stdout,
            r.stderr,
    {
        DockerLogsOptions { tail: Some(500), since: None, timestamps: false, stdout: true, stderr: true }
    }
}

/// Direction of a container file copy.
#[derive(Debug, Clone, PartialEq, Eq, Structural)]
pub enum DockerCopyDirection {
    ContainerToHost,
    HostToContainer,
    InContainer,
}

/// A container file copy request.
#[derive(Debug, Clone)]
pub struct DockerCopyRequest {
    pub direction: DockerCopyDirection,
    pub source: String,
    pub target: String,
}

/// Page selection for a listing.
#[derive(Debug, Clone)]
pub struct PaginationParams {
    pub page: u32,
    pub page_size: u32,
    pub sort_by: Option<String>,
    pub sort_order: Option<String>,
}

impl Default for PaginationParams {
    /// The first page of twenty, ascending.
    fn default() -> (r: Self)
        ensures
            r.page == 1,
            r.page_size == 20,
            r.sort_by is None,
            r.sort_order matches Some(o) && o@ == "asc"@,
    {
        PaginationParams { page: 1, page_size: 20, sort_by: None, sort_order: Some("asc".to_owned()) }
    }
}

/// How many pages a listing of `total` items spans at `page_size` a page,
/// capped at the counter's maximum; an empty listing has no pages.
pub open spec fn spec_total_pages(total: u64, page_size: u32) -> int {
    if total == 0 {
        0
    } else if page_size == 0 {
        u32::MAX as int
    } else {
        let q = (total - 1) / (page_size as int) + 1;
        if q > u32::MAX {
            u32::MAX as int
        } else {
            q
        }
    }
}

/// One page of a listing.
#[derive(Debug)]
pub struct PaginatedResponse<T> {
    pub items: Vec<T>,
    pub total: u64,
    pub page: u32,
    pub page_size: u32,
    pub total_pages: u32,
}

impl<T> PaginatedResponse<T> {
    /// Wraps one page, computing the page count from the total.
    pub fn new(items: Vec<T>, total: u64, page: u32, page_size: u32) -> (r: Self)
        ensures
            r.items == items,
            r.total == total,
            r.page == page,
            r.page_size == page_size,
            r.total_pages as int == spec_total_pages(total, page_size),
    {
        let total_pages: u32 = if total == 0 {
            0
        } else if page_size == 0 {
            u32::MAX
        } else {
            let q: u64 = (total - 1) / (page_size as u64) + 1;
            if q > u32::MAX as u64 {
                u32::MAX
            } else {
                q as u32
            }
        };
        Self { items, total, page, page_size, total_pages }
    }
}

/// Shell environment of the remote login.
#[derive(Debug, Clone)]
pub struct BashEnvironmentInfo {
    pub bash_version: String,
    /// "bash" or "sh".
    pub shell_type: String,
    pub ps1: String,
    pub pwd: String,
    pub home: String,
    pub user: String,
    pub hostname: String,
    pub path: String,
}

/// Completion suggestions for a partial command.
#[derive(Debug, Clone)]
pub struct CommandCompletion {
    pub completions: Vec<String>,
    pub prefix: String,
}

/// Identity of the machine the application runs on.
#[derive(Debug, Clone)]
pub struct DeviceInfo {
    pub device_uuid: String,
    pub device_type: String,
    pub device_name: String,
}

} // verus!
