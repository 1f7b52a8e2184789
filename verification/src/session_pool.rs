//! Session pool and connection manager: owns the model of the primary
//! interactive transport, the always-blocking fast-path transport for
//! dashboard polling, and the routing policy that keeps one-off command
//! execution away from transports busy with interactive terminals.
//!
//! A [`Transport`] here is the verified model of one authenticated
//! connection: the application (or a test) queues the outcomes the remote
//! host will give, and the pool consumes them under the routing rules.
//! The rule that makes the pool safe is never to run a synchronous command
//! on a transport that has gone non-blocking to host terminals: such calls
//! are routed to a disposable transport built from the cached connection
//! parameters.

use vstd::prelude::*;

use vstd::string::StringExecFns;

use vstd::string::StringSliceAdditionalSpecFns;

use vstd::string::StrSliceExecFns;

use crate::channel_state::{ChannelState, SSHChannelManager, SSHHealthMonitor, spec_index_of};
use crate::errors::{LovelyResError, LovelyResResult};
use crate::flow_control::{
    ChannelSink, DrainView, FlowControlState, SSHFlowController, concat_payloads, drain_view,
    spec_classify, spec_drain,
};
use crate::registry::{
    key_index_of, lemma_key_index_at, lemma_key_index_found, lemma_key_index_missing,
};
use crate::text::{contains_bytes, has_subrange, spec_trimmed, str_eq, trimmed};
use crate::thread_lifecycle::{SSHThreadManager, TerminalThreadState, thread_index_of};
use crate::types::{BashEnvironmentInfo, SSHCommand, SSHConnection};

verus! {

/// One outcome the remote host will give to a command execution.
#[derive(Debug, Clone)]
pub enum ScriptedExec {
    /// The command completes with this combined output and exit code.
    Output { output: String, exit_code: i32 },
    /// The transport fails with this error text.
    Fail { message: String },
}

/// Output of one command execution.
#[derive(Debug, Clone)]
pub struct TerminalOutput {
    pub command: String,
    pub output: String,
    pub exit_code: Option<i32>,
    pub timestamp_ms: u64,
}

/// Connection state surfaced to the UI.
#[derive(Debug, Clone)]
pub struct SSHConnectionStatus {
    pub connected: bool,
    pub host: String,
    pub port: u16,
    pub username: String,
    pub last_activity_ms: u64,
}

/// One logical session (a terminal) and its liveness.
#[derive(Debug)]
pub struct SSHSession {
    pub id: String,
    pub connection_id: String,
    pub created_ms: u64,
    pub last_activity_ms: u64,
    pub is_active: bool,
}

/// Cached parameters for transparent reconnection and disposable
/// transports; invalidated on explicit disconnect.
#[derive(Debug, Clone)]
pub struct ConnectionParams {
    pub host: String,
    pub port: u16,
    pub username: String,
    pub password: String,
}

/// A directory entry listed over the file sub-protocol.
#[derive(Debug, Clone)]
pub struct SftpFileInfo {
    pub name: String,
    pub path: String,
    /// "file", "directory" or "symlink".
    pub file_type: String,
    pub size: u64,
    pub permissions: String,
    pub modified: Option<String>,
    pub owner: Option<String>,
    pub group: Option<String>,
}

/// Full metadata of one remote file.
#[derive(Debug, Clone)]
pub struct SftpFileDetails {
    pub name: String,
    pub path: String,
    pub file_type: String,
    pub size: u64,
    pub permissions: String,
    pub owner: Option<String>,
    pub group: Option<String>,
    pub created: Option<String>,
    pub modified: Option<String>,
    pub accessed: Option<String>,
}

/// Model of one authenticated connection to the remote host.
///
/// `script` holds the outcomes the host will give to the next command
/// executions, front first; `touch_count` counts every execution that ran
/// on this transport, which is how tests observe that a transport was
/// never used.
#[derive(Debug)]
pub struct Transport {
    pub host: String,
    pub port: u16,
    pub username: String,
    /// A transport that has hosted a terminal channel goes non-blocking
    /// and must never serve synchronous calls again.
    pub blocking: bool,
    pub touch_count: u64,
    pub script: Vec<ScriptedExec>,
}

impl Transport {
    /// A fresh blocking transport with no scripted outcomes.
    pub fn new(host: String, port: u16, username: String) -> (r: Self)
        ensures
            r.host == host,
            r.port == port,
            r.username == username,
            r.blocking,
            r.touch_count == 0,
            r.script@ == Seq::<ScriptedExec>::empty(),
    {
        Self { host, port, username, blocking: true, touch_count: 0, script: Vec::new() }
    }

    /// Queues the outcome the host will give to the next execution.
    pub fn push_result(&mut self, outcome: ScriptedExec)
        ensures
            final(self).script@ == old(self).script@.push(outcome),
            final(self).touch_count == old(self).touch_count,
            final(self).host == old(self).host,
            final(self).port == old(self).port,
            final(self).username == old(self).username,
            final(self).blocking == old(self).blocking,
    {
        self.script.push(outcome);
    }

    /// Runs one command on this transport, consuming the next scripted
    /// outcome.
    pub fn exec(&mut self, command: &str, now_ms: u64) -> (r: LovelyResResult<TerminalOutput>)
        ensures
            final(self).host == old(self).host,
            final(self).port == old(self).port,
            final(self).username == old(self).username,
            final(self).blocking == old(self).blocking,
            final(self).touch_count == if old(self).touch_count < u64::MAX {
                old(self).touch_count + 1
            } else {
                u64::MAX as int
            },
            old(self).script@.len() == 0 ==> (r matches Err(LovelyResError::SSHError(m)) && m@
                == "Transport has no scripted outcome"@ && final(self).script@ == old(self).script@),
            old(self).script@.len() > 0 ==> (final(self).script@ == old(self).script@.drop_first()
                && ({
                match old(self).script@[0] {
                    ScriptedExec::Output { output, exit_code } => r matches Ok(t) && t.command@
                        == command@ && t.output == output && t.exit_code == Some(exit_code)
                        && t.timestamp_ms == now_ms,
                    ScriptedExec::Fail { message } => r matches Err(LovelyResError::SSHError(m))
                        && m == message,
                }
            })),
    {
        if self.touch_count < u64::MAX {
            self.touch_count = self.touch_count + 1;
        }
        if self.script.len() == 0 {
            return Err(LovelyResError::SSHError("Transport has no scripted outcome".to_owned()));
        }
        let head = self.script.remove(0);
        match head {
            ScriptedExec::Output { output, exit_code } => Ok(
                TerminalOutput {
                    command: command.to_owned(),
                    output,
                    exit_code: Some(exit_code),
                    timestamp_ms: now_ms,
                },
            ),
            ScriptedExec::Fail { message } => Err(LovelyResError::SSHError(message)),
        }
    }
}

/// What running one command against a transport's scripted outcomes
/// gives: the touch counter advances, the script head is consumed and
/// fixes the result; an exhausted script is an error.
pub open spec fn spec_exec_step(
    before: Transport,
    after: Transport,
    command: Seq<char>,
    now_ms: u64,
    r: LovelyResResult<TerminalOutput>,
) -> bool {
    &&& after.host == before.host
    &&& after.port == before.port
    &&& after.username == before.username
    &&& after.blocking == before.blocking
    &&& after.touch_count == if before.touch_count < u64::MAX {
        before.touch_count + 1
    } else {
        u64::MAX as int
    }
    &&& (before.script@.len() == 0 ==> (r matches Err(LovelyResError::SSHError(_)) && after.script@
        == before.script@))
    &&& (before.script@.len() > 0 ==> (after.script@ == before.script@.drop_first() && (
    match before.script@[0] {
        ScriptedExec::Output { output, exit_code } => r matches Ok(t) && t.command@ == command
            && t.output == output && t.exit_code == Some(exit_code) && t.timestamp_ms == now_ms,
        ScriptedExec::Fail { message } => r matches Err(LovelyResError::SSHError(m)) && m
            == message,
    })))
}


/// The single-quote escape of one character for text spliced into a
/// quoted shell word: a quote closes the word, emits an escaped quote and
/// reopens it; everything else stands as it is.
pub open spec fn squote_piece(c: char) -> Seq<char> {
    if c == '\'' {
        seq!['\'', '\\', '\'', '\'']
    } else {
        seq![c]
    }
}

/// The single-quote escape of a whole text.
pub open spec fn spec_squote_escaped(s: Seq<char>) -> Seq<char>
    decreases s.len(),
{
    if s.len() == 0 {
        Seq::<char>::empty()
    } else {
        squote_piece(s[0]) + spec_squote_escaped(s.drop_first())
    }
}

/// Escaping one more character appends its piece.
proof fn lemma_squote_push(s: Seq<char>, k: int)
    requires
        0 <= k < s.len(),
    ensures
        spec_squote_escaped(s.take(k + 1)) == spec_squote_escaped(s.take(k)) + squote_piece(s[k]),
    decreases k,
{
    let t = s.take(k + 1);
    if k == 0 {
        assert(t.drop_first() =~= Seq::<char>::empty());
        assert(s.take(0) =~= Seq::<char>::empty());
        assert(spec_squote_escaped(t) =~= spec_squote_escaped(s.take(0)) + squote_piece(s[0]));
    } else {
        assert(t[0] == s[0]);
        assert(t.drop_first() =~= s.drop_first().take(k));
        assert(s.take(k)[0] == s[0]);
        assert(s.take(k).drop_first() =~= s.drop_first().take(k - 1));
        lemma_squote_push(s.drop_first(), k - 1);
        assert(s.drop_first()[k - 1] == s[k]);
        assert(spec_squote_escaped(t) =~= spec_squote_escaped(s.take(k)) + squote_piece(s[k]));
    }
}

/// Escapes text for splicing into a single-quoted shell word.
fn escape_single_quotes(text: &str) -> (r: String)
    ensures
        r@ == spec_squote_escaped(text@),
{
    let n = text.unicode_len();
    let mut out = String::new();
    let mut i: usize = 0;
    while i < n
        invariant
            n == text@.len(),
            0 <= i <= n,
            out@ == spec_squote_escaped(text@.take(i as int)),
        decreases n - i,
    {
        let c = text.get_char(i);
        if c == '\'' {
            out.append("'\\''");
            proof {
                reveal_strlit("'\\''");
                assert("'\\''"@ =~= squote_piece('\''));
            }
        } else {
            let piece = text.substring_char(i, i + 1);
            out.append(piece);
            proof {
                assert(text@.subrange(i as int, i + 1) =~= squote_piece(text@[i as int]));
            }
        }
        i = i + 1;
        proof {
            lemma_squote_push(text@, i - 1);
        }
    }
    proof {
        assert(text@.take(n as int) =~= text@);
    }
    out
}

/// The privilege-switch wrapper run for an as-user dashboard query: sudo
/// where available, su otherwise, the command spliced in single quotes.
pub open spec fn spec_as_user_command(user: Seq<char>, cmd: Seq<char>) -> Seq<char> {
    "if command -v sudo &>/dev/null; then sudo -u "@ + user + " bash -c '"@ + spec_squote_escaped(
        cmd,
    ) + "'; else su - "@ + user + " -c '"@ + spec_squote_escaped(cmd) + "'; fi"@
}

/// Builds the privilege-switch wrapper.
fn as_user_command(user: &str, cmd: &str) -> (r: String)
    ensures
        r@ == spec_as_user_command(user@, cmd@),
{
    let escaped = escape_single_quotes(cmd);
    let r = "if command -v sudo &>/dev/null; then sudo -u ".to_owned().concat(user).concat(
        " bash -c '",
    ).concat(escaped.as_str()).concat("'; else su - ").concat(user).concat(" -c '").concat(
        escaped.as_str(),
    ).concat("'; fi");
    proof {
        assert(r@ =~= spec_as_user_command(user@, cmd@));
    }
    r
}

/// A command quoted as one POSIX shell word: wrapped in single quotes
/// with embedded quotes escaped; the empty command quotes to an empty
/// word.
pub open spec fn spec_shell_quoted(cmd: Seq<char>) -> Seq<char> {
    "'"@ + spec_shell_escaped(cmd) + "'"@
}

/// The shell-word escape of a whole text: a quote becomes a closed quote,
/// a double-quoted quote and a reopened quote.
pub open spec fn spec_shell_escaped(s: Seq<char>) -> Seq<char>
    decreases s.len(),
{
    if s.len() == 0 {
        Seq::<char>::empty()
    } else {
        shell_piece(s[0]) + spec_shell_escaped(s.drop_first())
    }
}

/// The shell-word escape of one character.
pub open spec fn shell_piece(c: char) -> Seq<char> {
    if c == '\'' {
        seq!['\'', '"', '\'', '"', '\'']
    } else {
        seq![c]
    }
}

/// Escaping one more character appends its piece.
proof fn lemma_shell_push(s: Seq<char>, k: int)
    requires
        0 <= k < s.len(),
    ensures
        spec_shell_escaped(s.take(k + 1)) == spec_shell_escaped(s.take(k)) + shell_piece(s[k]),
    decreases k,
{
    let t = s.take(k + 1);
    if k == 0 {
        assert(t.drop_first() =~= Seq::<char>::empty());
        assert(s.take(0) =~= Seq::<char>::empty());
        assert(spec_shell_escaped(t) =~= spec_shell_escaped(s.take(0)) + shell_piece(s[0]));
    } else {
        assert(t[0] == s[0]);
        assert(t.drop_first() =~= s.drop_first().take(k));
        assert(s.take(k)[0] == s[0]);
        assert(s.take(k).drop_first() =~= s.drop_first().take(k - 1));
        lemma_shell_push(s.drop_first(), k - 1);
        assert(s.drop_first()[k - 1] == s[k]);
        assert(spec_shell_escaped(t) =~= spec_shell_escaped(s.take(k)) + shell_piece(s[k]));
    }
}

/// Quotes a command as one POSIX shell word, safe to hand to the remote
/// shell.
pub fn escape_shell_command(command: &str) -> (r: String)
    ensures
        r@ == spec_shell_quoted(command@),
{
    let n = command.unicode_len();
    let mut out = "'".to_owned();
    proof {
        reveal_strlit("'");
        assert(out@ =~= "'"@ + spec_shell_escaped(command@.take(0)));
    }
    let mut i: usize = 0;
    while i < n
        invariant
            n == command@.len(),
            0 <= i <= n,
            out@ == "'"@ + spec_shell_escaped(command@.take(i as int)),
        decreases n - i,
    {
        let c = command.get_char(i);
        if c == '\'' {
            out.append("'\"'\"'");
            proof {
                reveal_strlit("'\"'\"'");
                assert("'\"'\"'"@ =~= shell_piece('\''));
            }
        } else {
            let piece = command.substring_char(i, i + 1);
            out.append(piece);
            proof {
                assert(command@.subrange(i as int, i + 1) =~= shell_piece(command@[i as int]));
            }
        }
        i = i + 1;
        proof {
            lemma_shell_push(command@, i - 1);
        }
    }
    let r = out.concat("'");
    proof {
        assert(command@.take(n as int) =~= command@);
        assert(r@ =~= spec_shell_quoted(command@));
    }
    r
}

/// The full wire text for running `command` through a login shell.
pub open spec fn spec_shell_command(shell: Seq<char>, cmd: Seq<char>) -> Seq<char> {
    shell + " -lc "@ + spec_shell_quoted(cmd)
}

/// Builds the wire text for running `command` through a login shell.
pub fn shell_wrapped_command(shell: &str, command: &str) -> (r: String)
    ensures
        r@ == spec_shell_command(shell@, command@),
{
    let r = shell.to_owned().concat(" -lc ").concat(escape_shell_command(command).as_str());
    proof {
        assert(r@ =~= spec_shell_command(shell@, command@));
    }
    r
}

/// The error texts that mean the remote host has no bash, folded to lower
/// case.
pub open spec fn spec_bash_missing(folded: Seq<u8>) -> bool {
    ||| has_subrange(folded, "bash: command not found"@.map_values(|c: char| c as u8))
    ||| has_subrange(folded, "bash: not found"@.map_values(|c: char| c as u8))
    ||| has_subrange(folded, "/bin/bash: no such file"@.map_values(|c: char| c as u8))
    ||| has_subrange(folded, "bash: no such file"@.map_values(|c: char| c as u8))
    ||| has_subrange(folded, "which: bash: not found"@.map_values(|c: char| c as u8))
    ||| has_subrange(folded, "command not found: bash"@.map_values(|c: char| c as u8))
}

/// One byte folded to ASCII lower case.
pub open spec fn spec_lower_byte(b: u8) -> u8 {
    if 65 <= b <= 90 {
        (b + 32) as u8
    } else {
        b
    }
}

/// A byte sequence folded to ASCII lower case.
pub open spec fn spec_ascii_lower(s: Seq<u8>) -> Seq<u8> {
    Seq::new(s.len(), |i: int| spec_lower_byte(s[i]))
}

/// Folds bytes to ASCII lower case.
fn ascii_lower(bytes: &[u8]) -> (r: Vec<u8>)
    ensures
        r@ == spec_ascii_lower(bytes@),
{
    let mut out: Vec<u8> = Vec::new();
    let mut i: usize = 0;
    while i < bytes.len()
        invariant
            0 <= i <= bytes@.len(),
            out@.len() == i as int,
            forall|j: int| 0 <= j < i ==> out@[j] == spec_lower_byte(#[trigger] bytes@[j]),
        decreases bytes@.len() - i,
    {
        let b = bytes[i];
        if 65 <= b && b <= 90 {
            out.push(b + 32);
        } else {
            out.push(b);
        }
        i = i + 1;
    }
    proof {
        assert(out@ =~= spec_ascii_lower(bytes@));
    }
    out
}

/// Decides whether an execution error means the remote host has no bash,
/// so the caller should retry the command through plain sh.
pub fn is_bash_missing_error(error_text: &str) -> (r: bool)
    ensures
        r == spec_bash_missing(spec_ascii_lower(error_text.spec_bytes())),
{
    let folded = ascii_lower(error_text.as_bytes());
    proof {
        reveal_strlit("bash: command not found");
        reveal_strlit("bash: not found");
        reveal_strlit("/bin/bash: no such file");
        reveal_strlit("bash: no such file");
        reveal_strlit("which: bash: not found");
        reveal_strlit("command not found: bash");
    }
    let r = contains_str_pattern(&folded, "bash: command not found") || contains_str_pattern(
        &folded,
        "bash: not found",
    ) || contains_str_pattern(&folded, "/bin/bash: no such file") || contains_str_pattern(
        &folded,
        "bash: no such file",
    ) || contains_str_pattern(&folded, "which: bash: not found") || contains_str_pattern(
        &folded,
        "command not found: bash",
    );
    r
}

/// Searches folded bytes for an ASCII pattern literal.
fn contains_str_pattern(haystack: &Vec<u8>, pattern: &str) -> (r: bool)
    requires
        vstd::string::is_ascii(pattern),
    ensures
        r == has_subrange(haystack@, pattern@.map_values(|c: char| c as u8)),
{
    let needle = pattern.as_bytes();
    proof {
        vstd::string::is_ascii_spec_bytes(pattern);
        assert(needle@ =~= pattern@.map_values(|c: char| c as u8));
    }
    contains_bytes(haystack.as_slice(), needle)
}

/// Combines the standard output and error streams as a command's result
/// text: the error stream is appended only when the command failed and
/// said something.
pub fn combine_output(output: String, stderr: &str, exit_code: i32) -> (r: String)
    ensures
        r@ == if stderr@.len() > 0 && exit_code != 0 {
            output@ + "\n"@ + stderr@
        } else {
            output@
        },
{
    if !stderr.is_empty() && exit_code != 0 {
        output.concat("\n").concat(stderr)
    } else {
        output
    }
}

/// Which transport a one-off command execution will use.
#[derive(Debug, Clone, Copy, PartialEq, Eq, Structural)]
pub enum ExecRoute {
    /// The primary transport, synchronously: safe only while no terminal
    /// is open and the transport is still blocking.
    Primary,
    /// A disposable transport built from the cached parameters; the
    /// primary transport must not be used.
    Disposable,
    /// A disposable transport first, falling back to the idle primary
    /// transport if the disposable attempt fails.
    DisposableThenPrimary,
}

/// Position of `id` among the open-terminal ids, or -1.
pub open spec fn tid_index(s: Seq<String>, id: Seq<char>) -> int {
    key_index_of(s, id, |x: String| x@)
}

/// Position of the flow controller for `id`, or -1.
pub open spec fn flow_index(s: Seq<(String, SSHFlowController)>, id: Seq<char>) -> int {
    key_index_of(s, id, |x: (String, SSHFlowController)| x.0@)
}

/// Position of the session record for `id`, or -1.
pub open spec fn session_index(s: Seq<SSHSession>, id: Seq<char>) -> int {
    key_index_of(s, id, |x: SSHSession| x.id@)
}

/// Finds `id` among the open-terminal ids.
fn find_tid(ids: &Vec<String>, id: &str) -> (r: Option<usize>)
    ensures
        match r {
            Some(i) => tid_index(ids@, id@) == i as int && i < ids@.len(),
            None => tid_index(ids@, id@) == -1,
        },
{
    let mut i: usize = 0;
    while i < ids.len()
        invariant
            0 <= i <= ids@.len(),
            forall|j: int| 0 <= j < i ==> (#[trigger] ids@[j])@ != id@,
        decreases ids@.len() - i,
    {
        if str_eq(ids[i].as_str(), id) {
            proof {
                lemma_key_index_at(ids@, id@, |x: String| x@, i as int);
            }
            return Some(i);
        }
        i = i + 1;
    }
    proof {
        lemma_key_index_at(ids@, id@, |x: String| x@, ids@.len() as int);
    }
    None
}

/// The extreme patterns a command is refused for: a classic fork bomb.
pub open spec fn forkbomb_pattern() -> Seq<u8> {
    seq![58u8, 40u8, 41u8, 123u8, 32u8, 58u8, 124u8, 58u8, 38u8, 32u8, 125u8, 59u8, 58u8]
}

/// Longest command accepted, in bytes.
pub const MAX_COMMAND_BYTES: usize = 262144;

/// A command is run only if it stays under the length cap and does not
/// carry the fork-bomb pattern.
pub open spec fn spec_command_safe(cmd: Seq<u8>) -> bool {
    &&& !has_subrange(cmd, forkbomb_pattern())
    &&& cmd.len() <= MAX_COMMAND_BYTES
}

/// Session pool: the primary and fast-path transports, cached connection
/// parameters, open terminals with their flow controllers, and the
/// channel and worker registries.
#[derive(Debug)]
pub struct SSHManager {
    pub connections: Vec<SSHConnection>,
    pub commands: Vec<SSHCommand>,
    pub active_sessions: Vec<SSHSession>,
    /// The primary interactive transport.
    pub current_session: Option<Transport>,
    /// The dedicated always-blocking fast-path transport.
    pub dashboard_session: Option<Transport>,
    pub current_connection_status: Option<SSHConnectionStatus>,
    /// Ids of terminals currently open.
    pub terminal_ids: Vec<String>,
    /// Flow controller of each open terminal.
    pub terminal_flows: Vec<(String, SSHFlowController)>,
    pub last_connection_params: Option<ConnectionParams>,
    pub channel_manager: SSHChannelManager,
    pub health_monitor: SSHHealthMonitor,
    pub thread_manager: SSHThreadManager,
    /// Outcomes the host will give to executions on disposable
    /// transports, front first.
    pub disposable_scripts: Vec<ScriptedExec>,
}

impl SSHManager {
    /// Whether the pool believes it is connected.
    pub open spec fn spec_connected(self) -> bool {
        match self.current_connection_status {
            Some(s) => s.connected,
            None => false,
        }
    }

    /// Whether any interactive terminal is open.
    pub open spec fn spec_has_terminals(self) -> bool {
        self.terminal_ids@.len() > 0
    }

    /// Whether the primary transport has gone non-blocking.
    pub open spec fn spec_primary_nonblocking(self) -> bool {
        match self.current_session {
            Some(t) => !t.blocking,
            None => false,
        }
    }

    /// How often the primary transport has served an execution.
    pub open spec fn spec_primary_touch(self) -> int {
        match self.current_session {
            Some(t) => t.touch_count as int,
            None => 0,
        }
    }

    /// Structural invariant of the pool.
    pub open spec fn well_formed(self) -> bool {
        &&& self.channel_manager.well_formed()
        &&& forall|i: int|
            0 <= i < self.terminal_flows@.len() ==> (
            #[trigger] self.terminal_flows@[i]).1.well_formed()
        &&& (self.spec_connected() ==> self.current_session is Some)
        &&& forall|i: int, j: int|
            0 <= i < j < self.terminal_ids@.len() ==> (#[trigger] self.terminal_ids@[i])@ != (
            #[trigger] self.terminal_ids@[j])@
    }

    /// An empty pool that knows the stock command catalogue.
    pub fn new() -> (r: Self)
        ensures
            r.well_formed(),
            r.connections@.len() == 0,
            r.commands@.len() == 6,
            r.active_sessions@.len() == 0,
            r.current_session is None,
            r.dashboard_session is None,
            r.current_connection_status is None,
            r.terminal_ids@.len() == 0,
            r.terminal_flows@.len() == 0,
            r.last_connection_params is None,
            r.disposable_scripts@.len() == 0,
            !r.spec_connected(),
    {
        Self {
            connections: Vec::new(),
            commands: Self::get_default_commands(),
            active_sessions: Vec::new(),
            current_session: None,
            dashboard_session: None,
            current_connection_status: None,
            terminal_ids: Vec::new(),
            terminal_flows: Vec::new(),
            last_connection_params: None,
            channel_manager: SSHChannelManager::new(),
            health_monitor: SSHHealthMonitor::new(),
            thread_manager: SSHThreadManager::new(),
            disposable_scripts: Vec::new(),
        }
    }

    /// The stock command catalogue shown before the operator stores any.
    fn get_default_commands() -> (r: Vec<SSHCommand>)
        ensures
            r@.len() == 6,
    {
        let mut out: Vec<SSHCommand> = Vec::new();
        out.push(
            SSHCommand {
                id: crate::ids::uuid_v4_string(),
                name: "System information".to_owned(),
                command: "uname -a && cat /etc/os-release".to_owned(),
                description: "Basic information about the system".to_owned(),
                category: "System".to_owned(),
                favorite: true,
            },
        );
        out.push(
            SSHCommand {
                id: crate::ids::uuid_v4_string(),
                name: "Uptime".to_owned(),
                command: "uptime && who".to_owned(),
                description: "Uptime and the users logged in".to_owned(),
                category: "System".to_owned(),
                favorite: false,
            },
        );
        out.push(
            SSHCommand {
                id: crate::ids::uuid_v4_string(),
                name: "Process list".to_owned(),
                command: "ps aux --sort=-%cpu".to_owned(),
                description: "All processes ordered by processor use".to_owned(),
                category: "Processes".to_owned(),
                favorite: true,
            },
        );
        out.push(
            SSHCommand {
                id: crate::ids::uuid_v4_string(),
                name: "Network connections".to_owned(),
                command: "netstat -tulpn".to_owned(),
                description: "All listening and established connections".to_owned(),
                category: "Network".to_owned(),
                favorite: true,
            },
        );
        out.push(
            SSHCommand {
                id: crate::ids::uuid_v4_string(),
                name: "Authentication log".to_owned(),
                command: "cat /var/log/auth.log".to_owned(),
                description: "The full authentication log".to_owned(),
                category: "Logs".to_owned(),
                favorite: true,
            },
        );
        out.push(
            SSHCommand {
                id: crate::ids::uuid_v4_string(),
                name: "Disk usage".to_owned(),
                command: "df -h && du -sh /var/log/* | sort -hr".to_owned(),
                description: "Disk usage and the size of the log directories".to_owned(),
                category: "Filesystem".to_owned(),
                favorite: true,
            },
        );
        out
    }

    /// Establishes the connection model: a blocking primary transport, the
    /// dedicated fast-path transport, cached parameters and a connected
    /// status.  The application calls this once the real handshakes and
    /// authentication succeeded.
    pub fn connect(
        &mut self,
        host: &str,
        port: u16,
        username: &str,
        password: &str,
        now_ms: u64,
    ) -> (r: LovelyResResult<()>)
        requires
            old(self).well_formed(),
        ensures
            final(self).well_formed(),
            r is Ok,
            final(self).spec_connected(),
            (final(self).current_session matches Some(t) && t.host@ == host@ && t.port == port
                && t.username@ == username@ && t.blocking && t.touch_count == 0),
            (final(self).dashboard_session matches Some(t) && t.host@ == host@ && t.port == port
                && t.username@ == username@ && t.blocking && t.touch_count == 0),
            (final(self).last_connection_params matches Some(p) && p.host@ == host@ && p.port
                == port && p.username@ == username@ && p.password@ == password@),
            (final(self).current_connection_status matches Some(s) && s.connected && s.host@
                == host@ && s.port == port && s.username@ == username@ && s.last_activity_ms
                == now_ms),
            final(self).health_monitor.monitoring,
            final(self).terminal_ids == old(self).terminal_ids,
            final(self).terminal_flows == old(self).terminal_flows,
            final(self).active_sessions == old(self).active_sessions,
            final(self).connections == old(self).connections,
            final(self).commands == old(self).commands,
            final(self).channel_manager == old(self).channel_manager,
            final(self).disposable_scripts == old(self).disposable_scripts,
    {
        self.current_session = Some(Transport::new(host.to_owned(), port, username.to_owned()));
        self.dashboard_session = Some(Transport::new(host.to_owned(), port, username.to_owned()));
        self.current_connection_status = Some(
            SSHConnectionStatus {
                connected: true,
                host: host.to_owned(),
                port,
                username: username.to_owned(),
                last_activity_ms: now_ms,
            },
        );
        self.last_connection_params = Some(
            ConnectionParams {
                host: host.to_owned(),
                port,
                username: username.to_owned(),
                password: password.to_owned(),
            },
        );
        self.health_monitor.start_monitoring();
        Ok(())
    }

    /// Tears the connection model down: both transports are dropped, the
    /// status cleared, monitoring stopped, and the cached parameters
    /// invalidated.
    pub fn disconnect(&mut self) -> (r: LovelyResResult<()>)
        requires
            old(self).well_formed(),
        ensures
            final(self).well_formed(),
            r is Ok,
            final(self).current_session is None,
            final(self).dashboard_session is None,
            final(self).current_connection_status is None,
            final(self).last_connection_params is None,
            !final(self).health_monitor.monitoring,
            !final(self).spec_connected(),
            final(self).terminal_ids == old(self).terminal_ids,
            final(self).terminal_flows == old(self).terminal_flows,
            final(self).active_sessions == old(self).active_sessions,
            final(self).channel_manager == old(self).channel_manager,
    {
        self.health_monitor.stop_monitoring();
        self.current_session = None;
        self.dashboard_session = None;
        self.current_connection_status = None;
        self.last_connection_params = None;
        Ok(())
    }

    /// Whether the pool is connected.
    pub fn is_connected(&self) -> (r: bool)
        ensures
            r == self.spec_connected(),
    {
        match &self.current_connection_status {
            Some(s) => s.connected,
            None => false,
        }
    }

    /// The current connection status, if any.
    pub fn get_connection_status(&self) -> (r: Option<&SSHConnectionStatus>)
        ensures
            match r {
                Some(s) => self.current_connection_status matches Some(c) && c == *s,
                None => self.current_connection_status is None,
            },
    {
        self.current_connection_status.as_ref()
    }

    /// Runs a dashboard query on the dedicated fast-path transport.
    ///
    /// The fast path never touches the primary transport, so its latency
    /// and availability are independent of interactive terminals and of
    /// whatever flow-control state the primary transport is in.
    pub fn execute_dashboard_command(&mut self, command: &str, now_ms: u64) -> (r: LovelyResResult<
        TerminalOutput,
    >)
        requires
            old(self).well_formed(),
        ensures
            final(self).well_formed(),
            // the primary transport and every terminal are untouched
            final(self).current_session == old(self).current_session,
            final(self).terminal_ids == old(self).terminal_ids,
            final(self).terminal_flows == old(self).terminal_flows,
            final(self).active_sessions == old(self).active_sessions,
            final(self).channel_manager == old(self).channel_manager,
            final(self).last_connection_params == old(self).last_connection_params,
            final(self).current_connection_status == old(self).current_connection_status,
            final(self).disposable_scripts == old(self).disposable_scripts,
            old(self).dashboard_session is None ==> (r matches Err(LovelyResError::SSHError(m))
                && m@ == "Dashboard session not initialized"@ && final(self).dashboard_session
                is None),
            old(self).dashboard_session matches Some(d) ==> (final(self).dashboard_session matches Some(d2) && spec_exec_step(d, d2, command@, now_ms, r)),
    {
        match self.dashboard_session.as_mut() {
            Some(d) => d.exec(command, now_ms),
            None => Err(LovelyResError::SSHError("Dashboard session not initialized".to_owned())),
        }
    }

    /// Runs a dashboard query as another user: with a username the
    /// command travels inside the privilege-switch wrapper (sudo where
    /// available, su otherwise); without one it is the plain fast-path
    /// execution.
    pub fn execute_dashboard_command_as_user(
        &mut self,
        command: &str,
        username: Option<&str>,
        now_ms: u64,
    ) -> (r: LovelyResResult<TerminalOutput>)
        requires
            old(self).well_formed(),
        ensures
            final(self).well_formed(),
            final(self).current_session == old(self).current_session,
            final(self).terminal_ids == old(self).terminal_ids,
            final(self).terminal_flows == old(self).terminal_flows,
            final(self).active_sessions == old(self).active_sessions,
            final(self).channel_manager == old(self).channel_manager,
            final(self).last_connection_params == old(self).last_connection_params,
            final(self).current_connection_status == old(self).current_connection_status,
            final(self).disposable_scripts == old(self).disposable_scripts,
            old(self).dashboard_session is None ==> (r matches Err(LovelyResError::SSHError(m))
                && m@ == "Dashboard session not initialized"@ && final(self).dashboard_session
                is None),
            old(self).dashboard_session matches Some(d) ==> (final(self).dashboard_session matches Some(d2) && ({
                let wire = match username {
                    Some(u) => spec_as_user_command(u@, command@),
                    None => command@,
                };
                spec_exec_step(d, d2, wire, now_ms, r)
            })),
    {
        match username {
            Some(user) => {
                let wire = as_user_command(user, command);
                self.execute_dashboard_command(wire.as_str(), now_ms)
            },
            None => self.execute_dashboard_command(command, now_ms),
        }
    }

    /// Container queries take the fast path as well.
    pub fn execute_docker_command(&mut self, command: &str, now_ms: u64) -> (r: LovelyResResult<
        TerminalOutput,
    >)
        requires
            old(self).well_formed(),
        ensures
            final(self).well_formed(),
            final(self).current_session == old(self).current_session,
            final(self).terminal_ids == old(self).terminal_ids,
            final(self).terminal_flows == old(self).terminal_flows,
            final(self).active_sessions == old(self).active_sessions,
            final(self).channel_manager == old(self).channel_manager,
            final(self).last_connection_params == old(self).last_connection_params,
            final(self).current_connection_status == old(self).current_connection_status,
            final(self).disposable_scripts == old(self).disposable_scripts,
            old(self).dashboard_session is None ==> (r matches Err(LovelyResError::SSHError(m))
                && m@ == "Dashboard session not initialized"@ && final(self).dashboard_session
                is None),
            old(self).dashboard_session matches Some(d) ==> (final(self).dashboard_session matches Some(d2) && spec_exec_step(d, d2, command@, now_ms, r)),
    {
        self.execute_dashboard_command(command, now_ms)
    }

    /// Refuses only the extreme cases: a fork bomb, or a command over the
    /// length cap.
    pub fn is_command_safe(command: &str) -> (r: bool)
        ensures
            r == spec_command_safe(command.spec_bytes()),
    {
        let bytes = command.as_bytes();
        if bytes.len() > MAX_COMMAND_BYTES {
            return false;
        }
        let mut pattern: Vec<u8> = Vec::new();
        pattern.push(58);
        pattern.push(40);
        pattern.push(41);
        pattern.push(123);
        pattern.push(32);
        pattern.push(58);
        pattern.push(124);
        pattern.push(58);
        pattern.push(38);
        pattern.push(32);
        pattern.push(125);
        pattern.push(59);
        pattern.push(58);
        proof {
            assert(pattern@ =~= forkbomb_pattern());
        }
        !contains_bytes(bytes, pattern.as_slice())
    }

    /// Chooses the transport for a one-off synchronous execution.
    ///
    /// A primary transport that has gone non-blocking, or any open
    /// terminal, forces the command onto a disposable transport; without
    /// cached parameters such a command cannot run at all.  An idle
    /// blocking pool still prefers a disposable transport but may fall
    /// back to the primary one.
    pub fn plan_execute(&self) -> (r: LovelyResResult<ExecRoute>)
        ensures
            // an open terminal never routes to the primary transport
            self.spec_has_terminals() ==> r != Ok::<ExecRoute, LovelyResError>(ExecRoute::Primary)
                && r != Ok::<ExecRoute, LovelyResError>(ExecRoute::DisposableThenPrimary),
            (self.spec_primary_nonblocking() || self.spec_has_terminals()) ==> (
            match self.last_connection_params {
                Some(_) => r == Ok::<ExecRoute, LovelyResError>(ExecRoute::Disposable),
                None => r matches Err(LovelyResError::SSHError(_)),
            }),
            (!self.spec_primary_nonblocking() && !self.spec_has_terminals()) ==> (
            match self.last_connection_params {
                Some(_) => r == Ok::<ExecRoute, LovelyResError>(ExecRoute::DisposableThenPrimary),
                None => if self.current_session is Some {
                    r == Ok::<ExecRoute, LovelyResError>(ExecRoute::Primary)
                } else {
                    r matches Err(LovelyResError::ConnectionError(_))
                },
            }),
    {
        let nonblocking = match &self.current_session {
            Some(t) => !t.blocking,
            None => false,
        };
        let has_terminals = self.terminal_ids.len() > 0;
        if nonblocking || has_terminals {
            if self.last_connection_params.is_some() {
                Ok(ExecRoute::Disposable)
            } else {
                Err(
                    LovelyResError::SSHError(
                        "Primary transport is busy and no connection parameters are cached".to_owned(),
                    ),
                )
            }
        } else if self.last_connection_params.is_some() {
            Ok(ExecRoute::DisposableThenPrimary)
        } else if self.current_session.is_some() {
            Ok(ExecRoute::Primary)
        } else {
            Err(LovelyResError::ConnectionError("No SSH connection established".to_owned()))
        }
    }

    /// Consumes the next scripted disposable-transport outcome.
    fn run_disposable(&mut self, command: &str, now_ms: u64) -> (r: LovelyResResult<TerminalOutput>)
        ensures
            final(self).current_session == old(self).current_session,
            final(self).dashboard_session == old(self).dashboard_session,
            final(self).terminal_ids == old(self).terminal_ids,
            final(self).terminal_flows == old(self).terminal_flows,
            final(self).active_sessions == old(self).active_sessions,
            final(self).channel_manager == old(self).channel_manager,
            final(self).last_connection_params == old(self).last_connection_params,
            final(self).current_connection_status == old(self).current_connection_status,
            final(self).connections == old(self).connections,
            final(self).commands == old(self).commands,
            old(self).disposable_scripts@.len() == 0 ==> (r matches Err(LovelyResError::SSHError(_))
                && final(self).disposable_scripts@ == old(self).disposable_scripts@),
            old(self).disposable_scripts@.len() > 0 ==> (final(self).disposable_scripts@ == old(self).disposable_scripts@.drop_first() && ({
                match old(self).disposable_scripts@[0] {
                    ScriptedExec::Output { output, exit_code } => r matches Ok(t) && t.command@
                        == command@ && t.output == output && t.exit_code == Some(exit_code)
                        && t.timestamp_ms == now_ms,
                    ScriptedExec::Fail { message } => r matches Err(LovelyResError::SSHError(m))
                        && m == message,
                }
            })),
    {
        if self.disposable_scripts.len() == 0 {
            return Err(
                LovelyResError::SSHError("No disposable transport outcome available".to_owned()),
            );
        }
        let head = self.disposable_scripts.remove(0);
        match head {
            ScriptedExec::Output { output, exit_code } => Ok(
                TerminalOutput {
                    command: command.to_owned(),
                    output,
                    exit_code: Some(exit_code),
                    timestamp_ms: now_ms,
                },
            ),
            ScriptedExec::Fail { message } => Err(LovelyResError::SSHError(message)),
        }
    }

    /// Runs a one-off command under the routing policy.
    ///
    /// While any terminal is open, or once the primary transport has gone
    /// non-blocking, the primary transport is never used: the command runs
    /// on a disposable transport or fails.  An idle blocking pool prefers
    /// the disposable transport and falls back to the primary one when
    /// the disposable attempt fails.
    pub fn execute_command(&mut self, command: &str, now_ms: u64) -> (r: LovelyResResult<
        TerminalOutput,
    >)
        requires
            old(self).well_formed(),
        ensures
            final(self).well_formed(),
            // the fast path and the terminals are never involved
            final(self).dashboard_session == old(self).dashboard_session,
            final(self).terminal_ids == old(self).terminal_ids,
            final(self).terminal_flows == old(self).terminal_flows,
            final(self).active_sessions == old(self).active_sessions,
            final(self).channel_manager == old(self).channel_manager,
            final(self).last_connection_params == old(self).last_connection_params,
            // with a terminal open the primary transport is untouched
            old(self).spec_has_terminals() ==> final(self).current_session == old(self).current_session,
            // so it is once the primary transport went non-blocking
            old(self).spec_primary_nonblocking() ==> final(self).current_session == old(self).current_session,
            // a refused command changes nothing and fails
            !spec_command_safe(command.spec_bytes()) ==> (r matches Err(LovelyResError::SSHError(_))
                && *final(self) == *old(self)),
            // a busy pool without cached parameters cannot run commands
            (spec_command_safe(command.spec_bytes()) && (old(self).spec_primary_nonblocking()
                || old(self).spec_has_terminals()) && old(self).last_connection_params is None)
                ==> r matches Err(LovelyResError::SSHError(_)),
            // a busy pool with cached parameters consumes the disposable
            // outcome
            (spec_command_safe(command.spec_bytes()) && (old(self).spec_primary_nonblocking()
                || old(self).spec_has_terminals()) && old(self).last_connection_params is Some
                && old(self).disposable_scripts@.len() > 0) ==> (final(self).disposable_scripts@
                == old(self).disposable_scripts@.drop_first() && ({
                match old(self).disposable_scripts@[0] {
                    ScriptedExec::Output { output, exit_code } => r matches Ok(t) && t.command@
                        == command@ && t.output == output && t.exit_code == Some(exit_code)
                        && t.timestamp_ms == now_ms,
                    ScriptedExec::Fail { message } => r matches Err(LovelyResError::SSHError(m))
                        && m == message,
                }
            })),
            // a wholly disconnected pool reports it
            (spec_command_safe(command.spec_bytes()) && !old(self).spec_primary_nonblocking()
                && !old(self).spec_has_terminals() && old(self).last_connection_params is None
                && old(self).current_session is None) ==> r matches Err(
                LovelyResError::ConnectionError(_),
            ),
            // an idle pool with cached parameters prefers the disposable
            // transport, falling back to the idle primary one when the
            // disposable attempt gives nothing
            (spec_command_safe(command.spec_bytes()) && !old(self).spec_primary_nonblocking()
                && !old(self).spec_has_terminals() && old(self).last_connection_params is Some)
                ==> ({
                let ds = old(self).disposable_scripts@;
                if ds.len() > 0 && ds[0] is Output {
                    &&& final(self).disposable_scripts@ == ds.drop_first()
                    &&& final(self).current_session == old(self).current_session
                    &&& (match ds[0] {
                        ScriptedExec::Output { output, exit_code } => r matches Ok(t) && t.command@
                            == command@ && t.output == output && t.exit_code == Some(exit_code)
                            && t.timestamp_ms == now_ms,
                        ScriptedExec::Fail { .. } => false,
                    })
                } else {
                    &&& final(self).disposable_scripts@ == (if ds.len() > 0 {
                        ds.drop_first()
                    } else {
                        ds
                    })
                    &&& (match (old(self).current_session, final(self).current_session) {
                        (Some(t), Some(t2)) => spec_exec_step(t, t2, command@, now_ms, r),
                        (None, None) => r matches Err(LovelyResError::ConnectionError(_)),
                        _ => false,
                    })
                }
            }),
            // an idle pool without cached parameters uses the primary
            // transport alone
            (spec_command_safe(command.spec_bytes()) && !old(self).spec_primary_nonblocking()
                && !old(self).spec_has_terminals() && old(self).last_connection_params is None)
                ==> (match (old(self).current_session, final(self).current_session) {
                (Some(t), Some(t2)) => spec_exec_step(t, t2, command@, now_ms, r),
                (None, None) => r matches Err(LovelyResError::ConnectionError(_)),
                _ => false,
            }),
    {
        if !Self::is_command_safe(command) {
            return Err(
                LovelyResError::SSHError("Command rejected as potentially dangerous".to_owned()),
            );
        }
        let route = self.plan_execute();
        match route {
            Err(e) => Err(e),
            Ok(ExecRoute::Disposable) => self.run_disposable(command, now_ms),
            Ok(ExecRoute::DisposableThenPrimary) => {
                let attempt = self.run_disposable(command, now_ms);
                match attempt {
                    Ok(out) => Ok(out),
                    Err(_) => match self.current_session.as_mut() {
                        Some(t) => t.exec(command, now_ms),
                        None => Err(
                            LovelyResError::ConnectionError(
                                "No SSH connection established".to_owned(),
                            ),
                        ),
                    },
                }
            },
            Ok(ExecRoute::Primary) => match self.current_session.as_mut() {
                Some(t) => t.exec(command, now_ms),
                None => Err(
                    LovelyResError::ConnectionError("No SSH connection established".to_owned()),
                ),
            },
        }
    }
}


/// Finds the flow controller for `id`.
fn find_flow(flows: &Vec<(String, SSHFlowController)>, id: &str) -> (r: Option<usize>)
    ensures
        match r {
            Some(i) => flow_index(flows@, id@) == i as int && i < flows@.len(),
            None => flow_index(flows@, id@) == -1,
        },
{
    let mut i: usize = 0;
    while i < flows.len()
        invariant
            0 <= i <= flows@.len(),
            forall|j: int| 0 <= j < i ==> (#[trigger] flows@[j]).0@ != id@,
        decreases flows@.len() - i,
    {
        if str_eq(flows[i].0.as_str(), id) {
            proof {
                lemma_key_index_at(flows@, id@, |x: (String, SSHFlowController)| x.0@, i as int);
            }
            return Some(i);
        }
        i = i + 1;
    }
    proof {
        lemma_key_index_at(flows@, id@, |x: (String, SSHFlowController)| x.0@, flows@.len() as int);
    }
    None
}

/// Finds the session record for `id`.
fn find_session(sessions: &Vec<SSHSession>, id: &str) -> (r: Option<usize>)
    ensures
        match r {
            Some(i) => session_index(sessions@, id@) == i as int && i < sessions@.len(),
            None => session_index(sessions@, id@) == -1,
        },
{
    let mut i: usize = 0;
    while i < sessions.len()
        invariant
            0 <= i <= sessions@.len(),
            forall|j: int| 0 <= j < i ==> (#[trigger] sessions@[j]).id@ != id@,
        decreases sessions@.len() - i,
    {
        if str_eq(sessions[i].id.as_str(), id) {
            proof {
                lemma_key_index_at(sessions@, id@, |x: SSHSession| x.id@, i as int);
            }
            return Some(i);
        }
        i = i + 1;
    }
    proof {
        lemma_key_index_at(sessions@, id@, |x: SSHSession| x.id@, sessions@.len() as int);
    }
    None
}

impl SSHSession {
    /// A field-for-field copy.
    pub fn duplicate(&self) -> (r: Self)
        ensures
            r == *self,
    {
        SSHSession {
            id: self.id.clone(),
            connection_id: self.connection_id.clone(),
            created_ms: self.created_ms,
            last_activity_ms: self.last_activity_ms,
            is_active: self.is_active,
        }
    }
}

impl SSHManager {
    /// Whether the terminal under `id` is open right now.
    pub open spec fn spec_terminal_open(self, id: Seq<char>) -> bool {
        tid_index(self.terminal_ids@, id) >= 0
    }

    /// Opens an interactive terminal: the primary transport goes
    /// non-blocking, a fresh flow controller, channel record and worker
    /// record are registered under `terminal_id`, and a live session
    /// record is kept.  Requires a connection.
    pub fn create_terminal_session(
        &mut self,
        terminal_id: &str,
        _cols: u16,
        _rows: u16,
        now_ms: u64,
    ) -> (r: LovelyResResult<String>)
        requires
            old(self).well_formed(),
        ensures
            final(self).well_formed(),
            !old(self).spec_connected() ==> (r matches Err(LovelyResError::ConnectionError(_))
                && *final(self) == *old(self)),
            old(self).spec_connected() ==> ({
                &&& r matches Ok(s) && s@ == terminal_id@
                &&& final(self).spec_primary_nonblocking()
                &&& final(self).spec_terminal_open(terminal_id@)
                &&& flow_index(final(self).terminal_flows@, terminal_id@) >= 0
                &&& ({
                    let fi = flow_index(final(self).terminal_flows@, terminal_id@);
                    final(self).terminal_flows@[fi].1.buffer().len() == 0
                })
                &&& spec_index_of(final(self).channel_manager.registry(), terminal_id@) >= 0
                &&& final(self).channel_manager.registry()[spec_index_of(
                    final(self).channel_manager.registry(),
                    terminal_id@,
                )].state == ChannelState::Active
                &&& thread_index_of(final(self).thread_manager.workers(), terminal_id@) >= 0
                &&& final(self).thread_manager.workers()[thread_index_of(
                    final(self).thread_manager.workers(),
                    terminal_id@,
                )].state == TerminalThreadState::Running
                &&& session_index(final(self).active_sessions@, terminal_id@) >= 0
                &&& final(self).active_sessions@[session_index(
                    final(self).active_sessions@,
                    terminal_id@,
                )].is_active
                &&& final(self).dashboard_session == old(self).dashboard_session
                &&& final(self).last_connection_params == old(self).last_connection_params
                &&& final(self).disposable_scripts == old(self).disposable_scripts
            }),
    {
        if !self.is_connected() {
            return Err(LovelyResError::ConnectionError("No active SSH connection".to_owned()));
        }
        // a transport hosting terminal channels must never serve blocking
        // calls again
        match self.current_session.as_mut() {
            Some(t) => {
                t.blocking = false;
            },
            None => {
                return Err(LovelyResError::ConnectionError("No active SSH connection".to_owned()));
            },
        }

        let record = SSHSession {
            id: terminal_id.to_owned(),
            connection_id: "current".to_owned(),
            created_ms: now_ms,
            last_activity_ms: now_ms,
            is_active: true,
        };
        let found_session = find_session(&self.active_sessions, terminal_id);
        match found_session {
            Some(i) => {
                proof {
                    lemma_key_index_found(self.active_sessions@, terminal_id@, |x: SSHSession| x.id@);
                    crate::registry::lemma_key_index_first(
                        self.active_sessions@,
                        terminal_id@,
                        |x: SSHSession| x.id@,
                    );
                }
                self.active_sessions.set(i, record);
                proof {
                    let sessions = self.active_sessions@;
                    assert forall|j: int| 0 <= j < i as int implies (
                    #[trigger] sessions[j]).id@ != terminal_id@ by {
                        assert(sessions[j] == old(self).active_sessions@[j]);
                    }
                    lemma_key_index_at(sessions, terminal_id@, |x: SSHSession| x.id@, i as int);
                }
            },
            None => {
                proof {
                    lemma_key_index_missing(self.active_sessions@, terminal_id@, |x: SSHSession| x.id@);
                }
                self.active_sessions.push(record);
                proof {
                    let sessions = self.active_sessions@;
                    assert forall|j: int| 0 <= j < sessions.len() - 1 implies (
                    #[trigger] sessions[j]).id@ != terminal_id@ by {
                        assert(sessions[j] == old(self).active_sessions@[j]);
                    }
                    lemma_key_index_at(
                        sessions,
                        terminal_id@,
                        |x: SSHSession| x.id@,
                        sessions.len() as int - 1,
                    );
                }
            },
        }

        let ghost ids0: Seq<String> = self.terminal_ids@;
        let ghost flows0: Seq<(String, SSHFlowController)> = self.terminal_flows@;
        let found_tid = find_tid(&self.terminal_ids, terminal_id);
        match found_tid {
            Some(_) => {},
            None => {
                proof {
                    lemma_key_index_missing(ids0, terminal_id@, |x: String| x@);
                }
                self.terminal_ids.push(terminal_id.to_owned());
                proof {
                    let ids = self.terminal_ids@;
                    assert forall|j: int| 0 <= j < ids.len() - 1 implies (#[trigger] ids[j])@
                        != terminal_id@ by {
                        assert(ids[j] == ids0[j]);
                    }
                    lemma_key_index_at(ids, terminal_id@, |x: String| x@, ids.len() as int - 1);
                }
            },
        }
        let fresh_flow = SSHFlowController::new();
        let found_flow = find_flow(&self.terminal_flows, terminal_id);
        match found_flow {
            Some(i) => {
                proof {
                    lemma_key_index_found(
                        flows0,
                        terminal_id@,
                        |x: (String, SSHFlowController)| x.0@,
                    );
                    crate::registry::lemma_key_index_first(
                        flows0,
                        terminal_id@,
                        |x: (String, SSHFlowController)| x.0@,
                    );
                }
                self.terminal_flows.set(i, (terminal_id.to_owned(), fresh_flow));
                proof {
                    let flows = self.terminal_flows@;
                    assert forall|j: int| 0 <= j < i as int implies (#[trigger] flows[j]).0@
                        != terminal_id@ by {
                        assert(flows[j] == flows0[j]);
                    }
                    lemma_key_index_at(
                        flows,
                        terminal_id@,
                        |x: (String, SSHFlowController)| x.0@,
                        i as int,
                    );
                    assert forall|j: int| 0 <= j < flows.len() implies (
                    #[trigger] flows[j]).1.well_formed() by {
                        if j != i as int {
                            assert(flows[j] == flows0[j]);
                        }
                    }
                }
            },
            None => {
                proof {
                    lemma_key_index_missing(
                        flows0,
                        terminal_id@,
                        |x: (String, SSHFlowController)| x.0@,
                    );
                }
                self.terminal_flows.push((terminal_id.to_owned(), fresh_flow));
                proof {
                    let flows = self.terminal_flows@;
                    assert forall|j: int| 0 <= j < flows.len() - 1 implies (#[trigger] flows[j]).0@
                        != terminal_id@ by {
                        assert(flows[j] == flows0[j]);
                    }
                    lemma_key_index_at(
                        flows,
                        terminal_id@,
                        |x: (String, SSHFlowController)| x.0@,
                        flows.len() as int - 1,
                    );
                    assert forall|j: int| 0 <= j < flows.len() implies (
                    #[trigger] flows[j]).1.well_formed() by {
                        if j < flows.len() - 1 {
                            assert(flows[j] == flows0[j]);
                        }
                    }
                }
            },
        }

        self.channel_manager.register_channel(terminal_id.to_owned(), now_ms);
        proof {
            crate::channel_state::lemma_index_of_found(
                self.channel_manager.registry(),
                terminal_id@,
            );
        }
        let created = self.thread_manager.create_terminal_thread(terminal_id.to_owned(), now_ms);
        proof {
            crate::thread_lifecycle::lemma_thread_index_found(
                self.thread_manager.workers(),
                terminal_id@,
            );
        }
        match created {
            Ok(_) => Ok(terminal_id.to_owned()),
            Err(e) => Err(e),
        }
    }

    /// Queues keystrokes for the terminal under `terminal_id`, classified
    /// by urgency; the worker drains them under flow control.
    pub fn send_terminal_input(&mut self, terminal_id: &str, data: Vec<u8>, now_ms: u64) -> (r:
        LovelyResResult<()>)
        requires
            old(self).well_formed(),
        ensures
            final(self).well_formed(),
            flow_index(old(self).terminal_flows@, terminal_id@) == -1 ==> (r matches Err(
                LovelyResError::SSHError(m),
            ) && m@ == "Terminal session does not exist: "@ + terminal_id@ && *final(self) == *old(self)),
            flow_index(old(self).terminal_flows@, terminal_id@) >= 0 ==> ({
                let fi = flow_index(old(self).terminal_flows@, terminal_id@);
                let c = old(self).terminal_flows@[fi].1;
                let entry = (crate::flow_control::BufferedInput {
                    data: data,
                    timestamp: now_ms,
                    priority: spec_classify(data@),
                    retry_count: 0,
                });
                let step = crate::flow_control::spec_enqueue(
                    c.buffer(),
                    c.max_buffer_size as nat,
                    entry,
                );
                &&& final(self).terminal_flows@.len() == old(self).terminal_flows@.len()
                &&& final(self).terminal_flows@[fi].0 == old(self).terminal_flows@[fi].0
                &&& final(self).terminal_flows@[fi].1.buffer() == step.0
                &&& (r is Ok) == step.1
                // queueing touches nothing of the flow but its buffer
                &&& SSHFlowController::same_config(c, final(self).terminal_flows@[fi].1)
                &&& final(self).terminal_flows@[fi].1.flow_state == c.flow_state
                &&& final(self).terminal_flows@[fi].1.bytes_sent == c.bytes_sent
                &&& final(self).terminal_flows@[fi].1.bytes_acknowledged == c.bytes_acknowledged
                &&& final(self).terminal_flows@[fi].1.backoff_until_ms == c.backoff_until_ms
                &&& forall|j: int|
                    0 <= j < old(self).terminal_flows@.len() && j != fi ==> final(self).terminal_flows@[j] == #[trigger] old(self).terminal_flows@[j]
                // and nothing of the rest of the pool
                &&& final(self).terminal_ids == old(self).terminal_ids
                &&& final(self).current_session == old(self).current_session
                &&& final(self).dashboard_session == old(self).dashboard_session
                &&& final(self).active_sessions == old(self).active_sessions
                &&& final(self).channel_manager == old(self).channel_manager
                &&& final(self).thread_manager == old(self).thread_manager
                &&& final(self).current_connection_status == old(self).current_connection_status
                &&& final(self).last_connection_params == old(self).last_connection_params
                &&& final(self).disposable_scripts == old(self).disposable_scripts
                &&& final(self).connections == old(self).connections
                &&& final(self).commands == old(self).commands
                &&& final(self).health_monitor == old(self).health_monitor
            }),
    {
        let found = find_flow(&self.terminal_flows, terminal_id);
        match found {
            None => Err(
                LovelyResError::SSHError(
                    "Terminal session does not exist: ".to_owned().concat(terminal_id),
                ),
            ),
            Some(i) => {
                let ghost flows0: Seq<(String, SSHFlowController)> = self.terminal_flows@;
                let priority = SSHFlowController::classify_input_priority(data.as_slice());
                let mut pair = self.terminal_flows.remove(i);
                let outcome = pair.1.queue_input(data, priority, now_ms);
                self.terminal_flows.insert(i, pair);
                proof {
                    let flows = self.terminal_flows@;
                    assert forall|j: int| 0 <= j < flows.len() && j != i as int implies #[trigger] flows[j]
                        == flows0[j] by {
                        if j < i as int {
                            assert(flows[j] == flows0.remove(i as int).insert(i as int, flows[i as int])[j]);
                        }
                    }
                    assert forall|j: int| 0 <= j < flows.len() implies (
                    #[trigger] flows[j]).1.well_formed() by {
                        if j != i as int {
                            assert(flows[j] == flows0[j]);
                        }
                    }
                }
                match outcome {
                    Ok(_) => Ok(()),
                    Err(e) => Err(e),
                }
            },
        }
    }

    /// Drains queued input of the terminal under `terminal_id` into the
    /// channel endpoint, under the flow-control rules: never more than the
    /// available window, urgency order first, fatal errors clear the
    /// queue.
    pub fn pump_terminal(
        &mut self,
        terminal_id: &str,
        chan: &mut ChannelSink,
        now_ms: u64,
    ) -> (r: LovelyResResult<usize>)
        requires
            old(self).well_formed(),
        ensures
            final(self).well_formed(),
            flow_index(old(self).terminal_flows@, terminal_id@) == -1 ==> (r matches Err(
                LovelyResError::SSHError(_),
            ) && *final(self) == *old(self) && *final(chan) == *old(chan)),
            flow_index(old(self).terminal_flows@, terminal_id@) >= 0 ==> ({
                let fi = flow_index(old(self).terminal_flows@, terminal_id@);
                let c = old(self).terminal_flows@[fi].1;
                let c2 = final(self).terminal_flows@[fi].1;
                &&& final(self).terminal_flows@.len() == old(self).terminal_flows@.len()
                &&& final(self).terminal_flows@[fi].0 == old(self).terminal_flows@[fi].0
                // never more than the window that was available
                &&& final(chan).written@.len() - old(chan).written@.len() <= c.spec_available_window()
                &&& final(chan).written@.len() >= old(chan).written@.len()
                &&& (r matches Ok(n) ==> n as int == final(chan).written@.len() - old(chan).written@.len())
                // a fatal transport error clears the queue
                &&& (r is Err ==> c2.buffer().len() == 0)
                // an unobstructed run writes every queued byte in order
                &&& (c.clean_run(*old(chan), now_ms) ==> (r is Ok && c2.buffer().len() == 0
                    && final(chan).written@ == old(chan).written@ + concat_payloads(c.buffer())))
                // the whole pump, as one functional step of the drain model
                &&& ((c.flow_state != FlowControlState::Blocked && now_ms >= c.backoff_until_ms)
                    ==> ({
                    let d = spec_drain(
                        c,
                        drain_view(c, *old(chan)),
                        now_ms,
                        c.flow_state == FlowControlState::Draining,
                    );
                    drain_view(c2, *final(chan)) == (DrainView { fatal: false, ..d }) && (
                    r is Err <==> d.fatal)
                }))
                &&& forall|j: int|
                    0 <= j < old(self).terminal_flows@.len() && j != fi ==> final(self).terminal_flows@[j] == #[trigger] old(self).terminal_flows@[j]
            }),
    {
        let found = find_flow(&self.terminal_flows, terminal_id);
        match found {
            None => Err(
                LovelyResError::SSHError(
                    "Terminal session does not exist: ".to_owned().concat(terminal_id),
                ),
            ),
            Some(i) => {
                let ghost flows0: Seq<(String, SSHFlowController)> = self.terminal_flows@;
                let mut pair = self.terminal_flows.remove(i);
                let outcome = pair.1.process_input(chan, now_ms);
                self.terminal_flows.insert(i, pair);
                proof {
                    let flows = self.terminal_flows@;
                    assert forall|j: int| 0 <= j < flows.len() && j != i as int implies #[trigger] flows[j]
                        == flows0[j] by {
                        if j < i as int {
                            assert(flows[j] == flows0.remove(i as int).insert(i as int, flows[i as int])[j]);
                        }
                    }
                    assert forall|j: int| 0 <= j < flows.len() implies (
                    #[trigger] flows[j]).1.well_formed() by {
                        if j != i as int {
                            assert(flows[j] == flows0[j]);
                        }
                    }
                }
                outcome
            },
        }
    }
}


impl SSHManager {
    /// Closes the terminal under `terminal_id`.
    ///
    /// Closing an open terminal stops its worker, moves its channel to
    /// `Closed` and leaves an inactive session record behind; closing it
    /// again is a harmless success.  Closing a terminal that was never
    /// opened is a not-found error.
    pub fn close_terminal_session(&mut self, terminal_id: &str) -> (r: LovelyResResult<()>)
        requires
            old(self).well_formed(),
        ensures
            final(self).well_formed(),
            old(self).spec_terminal_open(terminal_id@) ==> ({
                &&& r is Ok
                &&& !final(self).spec_terminal_open(terminal_id@)
                &&& final(self).terminal_ids@ == old(self).terminal_ids@.remove(
                    tid_index(old(self).terminal_ids@, terminal_id@),
                )
                // the closed terminal's flow controller is dropped; the
                // other terminals' controllers are untouched
                &&& ({
                    let fi = flow_index(old(self).terminal_flows@, terminal_id@);
                    if fi == -1 {
                        final(self).terminal_flows == old(self).terminal_flows
                    } else {
                        final(self).terminal_flows@ == old(self).terminal_flows@.remove(fi)
                    }
                })
                // the session record survives, marked inactive; other
                // records are untouched
                &&& ({
                    let si = session_index(old(self).active_sessions@, terminal_id@);
                    if si >= 0 {
                        final(self).active_sessions@ == old(self).active_sessions@.update(
                            si,
                            (SSHSession { is_active: false, ..old(self).active_sessions@[si] }),
                        )
                    } else {
                        final(self).active_sessions@.len() == old(self).active_sessions@.len() + 1
                            && final(self).active_sessions@.last().id@ == terminal_id@
                            && !final(self).active_sessions@.last().is_active && forall|j: int|
                            0 <= j < old(self).active_sessions@.len() ==> final(self).active_sessions@[j] == #[trigger] old(self).active_sessions@[j]
                    }
                })
                &&& session_index(final(self).active_sessions@, terminal_id@) >= 0
                &&& !final(self).active_sessions@[session_index(
                    final(self).active_sessions@,
                    terminal_id@,
                )].is_active
                // the channel moves to Closed; other channels are untouched
                &&& ({
                    let ci = spec_index_of(old(self).channel_manager.registry(), terminal_id@);
                    if ci == -1 {
                        final(self).channel_manager.registry() == old(self).channel_manager.registry()
                    } else {
                        crate::channel_state::stepped_to_state(
                            old(self).channel_manager.registry(),
                            final(self).channel_manager.registry(),
                            ci,
                        ) && final(self).channel_manager.registry()[ci].state
                            == ChannelState::Closed
                    }
                })
                // the worker record leaves; other workers are untouched
                &&& ({
                    let wi = thread_index_of(old(self).thread_manager.workers(), terminal_id@);
                    if wi == -1 {
                        final(self).thread_manager.workers() == old(self).thread_manager.workers()
                    } else {
                        final(self).thread_manager.workers() == old(self).thread_manager.workers().remove(wi)
                    }
                })
                &&& final(self).thread_manager.connection_pool == old(self).thread_manager.connection_pool
                // nothing else of the pool moves
                &&& final(self).current_session == old(self).current_session
                &&& final(self).dashboard_session == old(self).dashboard_session
                &&& final(self).current_connection_status == old(self).current_connection_status
                &&& final(self).last_connection_params == old(self).last_connection_params
                &&& final(self).disposable_scripts == old(self).disposable_scripts
                &&& final(self).connections == old(self).connections
                &&& final(self).commands == old(self).commands
                &&& final(self).health_monitor == old(self).health_monitor
            }),
            (!old(self).spec_terminal_open(terminal_id@) && session_index(
                old(self).active_sessions@,
                terminal_id@,
            ) >= 0) ==> (r is Ok && *final(self) == *old(self)),
            (!old(self).spec_terminal_open(terminal_id@) && session_index(
                old(self).active_sessions@,
                terminal_id@,
            ) == -1) ==> (r matches Err(LovelyResError::SSHError(m)) && m@
                == "Terminal session does not exist: "@ + terminal_id@ && *final(self) == *old(self)),
    {
        let found_tid = find_tid(&self.terminal_ids, terminal_id);
        match found_tid {
            Some(ti) => {
                let ghost ids0: Seq<String> = self.terminal_ids@;
                proof {
                    lemma_key_index_found(ids0, terminal_id@, |x: String| x@);
                }
                self.terminal_ids.remove(ti);
                proof {
                    let ids = self.terminal_ids@;
                    assert forall|a: int, b: int| 0 <= a < b < ids.len() implies (
                    #[trigger] ids[a])@ != (#[trigger] ids[b])@ by {
                        let a0 = if a < ti as int { a } else { a + 1 };
                        let b0 = if b < ti as int { b } else { b + 1 };
                        assert(ids[a] == ids0[a0]);
                        assert(ids[b] == ids0[b0]);
                    }
                    assert forall|j: int| 0 <= j < ids.len() implies (#[trigger] ids[j])@
                        != terminal_id@ by {
                        let j0 = if j < ti as int { j } else { j + 1 };
                        assert(ids[j] == ids0[j0]);
                        assert(ids0[ti as int]@ == terminal_id@);
                    }
                    lemma_key_index_at(ids, terminal_id@, |x: String| x@, ids.len() as int);
                }
                let found_flow = find_flow(&self.terminal_flows, terminal_id);
                let ghost flows0: Seq<(String, SSHFlowController)> = self.terminal_flows@;
                match found_flow {
                    Some(fi) => {
                        self.terminal_flows.remove(fi);
                        proof {
                            let flows = self.terminal_flows@;
                            assert forall|j: int| 0 <= j < flows.len() implies (
                            #[trigger] flows[j]).1.well_formed() by {
                                if j < fi as int {
                                    assert(flows[j] == flows0[j]);
                                } else {
                                    assert(flows[j] == flows0[j + 1]);
                                }
                            }
                        }
                    },
                    None => {},
                }
                let found_session = find_session(&self.active_sessions, terminal_id);
                match found_session {
                    Some(si) => {
                        proof {
                            lemma_key_index_found(
                                self.active_sessions@,
                                terminal_id@,
                                |x: SSHSession| x.id@,
                            );
                            crate::registry::lemma_key_index_first(
                                self.active_sessions@,
                                terminal_id@,
                                |x: SSHSession| x.id@,
                            );
                        }
                        let closed = SSHSession {
                            id: self.active_sessions[si].id.clone(),
                            connection_id: self.active_sessions[si].connection_id.clone(),
                            created_ms: self.active_sessions[si].created_ms,
                            last_activity_ms: self.active_sessions[si].last_activity_ms,
                            is_active: false,
                        };
                        let ghost sessions0: Seq<SSHSession> = self.active_sessions@;
                        self.active_sessions.set(si, closed);
                        proof {
                            let sessions = self.active_sessions@;
                            assert forall|j: int| 0 <= j < si as int implies (
                            #[trigger] sessions[j]).id@ != terminal_id@ by {
                                assert(sessions[j] == sessions0[j]);
                            }
                            lemma_key_index_at(
                                sessions,
                                terminal_id@,
                                |x: SSHSession| x.id@,
                                si as int,
                            );
                        }
                    },
                    None => {
                        let closed = SSHSession {
                            id: terminal_id.to_owned(),
                            connection_id: "current".to_owned(),
                            created_ms: 0,
                            last_activity_ms: 0,
                            is_active: false,
                        };
                        proof {
                            lemma_key_index_missing(
                                self.active_sessions@,
                                terminal_id@,
                                |x: SSHSession| x.id@,
                            );
                        }
                        let ghost sessions0: Seq<SSHSession> = self.active_sessions@;
                        self.active_sessions.push(closed);
                        proof {
                            let sessions = self.active_sessions@;
                            assert forall|j: int| 0 <= j < sessions.len() - 1 implies (
                            #[trigger] sessions[j]).id@ != terminal_id@ by {
                                assert(sessions[j] == sessions0[j]);
                            }
                            lemma_key_index_at(
                                sessions,
                                terminal_id@,
                                |x: SSHSession| x.id@,
                                sessions.len() as int - 1,
                            );
                        }
                    },
                }
                self.channel_manager.close_channel(terminal_id);
                let stopped = self.thread_manager.stop_terminal_thread(terminal_id);
                match stopped {
                    Ok(_) => {},
                    Err(_) => {},
                }
                Ok(())
            },
            None => {
                let found_session = find_session(&self.active_sessions, terminal_id);
                match found_session {
                    Some(_) => Ok(()),
                    None => Err(
                        LovelyResError::SSHError(
                            "Terminal session does not exist: ".to_owned().concat(terminal_id),
                        ),
                    ),
                }
            },
        }
    }

    /// Closes every open terminal; returns how many were open.  Each is
    /// closed as by [`Self::close_terminal_session`]: afterwards no
    /// terminal is open, every closed terminal's session record is
    /// inactive, and its channel, where registered, is `Closed`.
    pub fn close_all_terminal_sessions(&mut self) -> (r: LovelyResResult<usize>)
        requires
            old(self).well_formed(),
        ensures
            final(self).well_formed(),
            r matches Ok(n) && n == old(self).terminal_ids@.len(),
            final(self).terminal_ids@.len() == 0,
            forall|k: int|
                0 <= k < old(self).terminal_ids@.len() ==> ({
                    let id = (#[trigger] old(self).terminal_ids@[k])@;
                    &&& !final(self).spec_terminal_open(id)
                    &&& session_index(final(self).active_sessions@, id) >= 0
                    &&& !final(self).active_sessions@[session_index(
                        final(self).active_sessions@,
                        id,
                    )].is_active
                    &&& (spec_index_of(final(self).channel_manager.registry(), id) >= 0 ==> final(self).channel_manager.registry()[spec_index_of(
                        final(self).channel_manager.registry(),
                        id,
                    )].state == ChannelState::Closed)
                }),
    {
        let ghost ids0: Seq<String> = self.terminal_ids@;
        let count = self.terminal_ids.len();
        let mut closed: usize = 0;
        while self.terminal_ids.len() > 0
            invariant
                self.well_formed(),
                old(self).well_formed(),
                ids0 == old(self).terminal_ids@,
                closed + self.terminal_ids@.len() == count,
                count == ids0.len(),
                self.terminal_ids@ == ids0.skip(closed as int),
                forall|k: int|
                    0 <= k < closed ==> ({
                        let id = (#[trigger] ids0[k])@;
                        &&& session_index(self.active_sessions@, id) >= 0
                        &&& !self.active_sessions@[session_index(self.active_sessions@, id)].is_active
                        &&& (spec_index_of(self.channel_manager.registry(), id) >= 0
                            ==> self.channel_manager.registry()[spec_index_of(
                            self.channel_manager.registry(),
                            id,
                        )].state == ChannelState::Closed)
                    }),
            decreases self.terminal_ids@.len(),
        {
            let id = self.terminal_ids[0].clone();
            proof {
                lemma_key_index_at(self.terminal_ids@, id@, |x: String| x@, 0);
                assert(self.terminal_ids@[0] == ids0[closed as int]);
            }
            let ghost pre: SSHManager = *self;
            let outcome = self.close_terminal_session(id.as_str());
            match outcome {
                Ok(_) => {},
                Err(_) => {},
            }
            proof {
                assert(self.terminal_ids@ =~= ids0.skip(closed as int + 1)) by {
                    assert(pre.terminal_ids@.remove(0) =~= ids0.skip(closed as int).drop_first());
                    assert(ids0.skip(closed as int).drop_first() =~= ids0.skip(closed as int + 1));
                }
                // the terminal just closed has its record inactive and its
                // channel closed
                let idc = id@;
                assert(session_index(self.active_sessions@, idc) >= 0 && !self.active_sessions@[
                session_index(self.active_sessions@, idc)].is_active);
                // earlier closes survive this one: the close touched only
                // records and channels of its own id
                assert forall|k: int| 0 <= k < closed + 1 implies ({
                    let idk = (#[trigger] ids0[k])@;
                    &&& session_index(self.active_sessions@, idk) >= 0
                    &&& !self.active_sessions@[session_index(self.active_sessions@, idk)].is_active
                    &&& (spec_index_of(self.channel_manager.registry(), idk) >= 0
                        ==> self.channel_manager.registry()[spec_index_of(
                        self.channel_manager.registry(),
                        idk,
                    )].state == ChannelState::Closed)
                }) by {
                    let idk = ids0[k]@;
                    if k == closed {
                        assert(idk == idc);
                        let ci_cl = spec_index_of(pre.channel_manager.registry(), idc);
                        if ci_cl >= 0 {
                            crate::channel_state::lemma_index_of_found(
                                pre.channel_manager.registry(),
                                idc,
                            );
                            crate::channel_state::lemma_index_same_ids(
                                pre.channel_manager.registry(),
                                self.channel_manager.registry(),
                                idc,
                            );
                        } else {
                            crate::channel_state::lemma_index_of_bounds(
                                pre.channel_manager.registry(),
                                idc,
                            );
                        }
                    } else {
                        // session records: ids are unchanged position for
                        // position, so the lookup is stable
                        let si_pre = session_index(pre.active_sessions@, idk);
                        let si_cl = session_index(pre.active_sessions@, idc);
                        lemma_key_index_found(pre.active_sessions@, idk, |x: SSHSession| x.id@);
                        if si_cl >= 0 {
                            lemma_key_index_found(pre.active_sessions@, idc, |x: SSHSession| x.id@);
                            assert(forall|i: int|
                                0 <= i < pre.active_sessions@.len() ==> (
                                #[trigger] pre.active_sessions@[i]).id@ == self.active_sessions@[i].id@);
                            crate::registry::lemma_key_index_same_keys(
                                pre.active_sessions@,
                                self.active_sessions@,
                                idk,
                                |x: SSHSession| x.id@,
                            );
                            assert(idk != idc);
                            assert(si_pre != si_cl);
                        } else {
                            crate::registry::lemma_key_index_push_present(
                                pre.active_sessions@,
                                self.active_sessions@.last(),
                                idk,
                                |x: SSHSession| x.id@,
                            );
                            assert(self.active_sessions@ =~= pre.active_sessions@.push(
                                self.active_sessions@.last(),
                            ));
                        }
                        // channels: the ids are unchanged, so the lookup is
                        // stable, and only the closed id's entry moved
                        let ci_pre = spec_index_of(pre.channel_manager.registry(), idk);
                        if ci_pre >= 0 {
                            crate::channel_state::lemma_index_of_found(
                                pre.channel_manager.registry(),
                                idk,
                            );
                            let ci_cl = spec_index_of(pre.channel_manager.registry(), idc);
                            if ci_cl >= 0 {
                                crate::channel_state::lemma_index_of_found(
                                    pre.channel_manager.registry(),
                                    idc,
                                );
                                crate::channel_state::lemma_index_same_ids(
                                    pre.channel_manager.registry(),
                                    self.channel_manager.registry(),
                                    idk,
                                );
                                assert(ci_pre != ci_cl);
                            } else {
                                crate::channel_state::lemma_index_same_ids(
                                    pre.channel_manager.registry(),
                                    self.channel_manager.registry(),
                                    idk,
                                );
                            }
                        } else {
                            crate::channel_state::lemma_index_of_bounds(
                                pre.channel_manager.registry(),
                                idk,
                            );
                            crate::channel_state::lemma_index_of_missing(
                                pre.channel_manager.registry(),
                                idk,
                            );
                            if spec_index_of(self.channel_manager.registry(), idk) >= 0 {
                                crate::channel_state::lemma_index_of_found(
                                    self.channel_manager.registry(),
                                    idk,
                                );
                                assert(false);
                            }
                        }
                    }
                }
            }
            closed = closed + 1;
        }
        proof {
            assert(ids0.skip(count as int) =~= self.terminal_ids@);
        }
        Ok(count)
    }

    /// Acknowledges a size change for the terminal under `terminal_id`;
    /// the geometry itself travels with the application's channel.
    pub fn resize_terminal(&self, terminal_id: &str, _cols: u32, _rows: u32) -> (r: LovelyResResult<
        (),
    >)
        ensures
            session_index(self.active_sessions@, terminal_id@) >= 0 ==> r is Ok,
            session_index(self.active_sessions@, terminal_id@) == -1 ==> (r matches Err(
                LovelyResError::SSHError(m),
            ) && m@ == "Terminal session does not exist: "@ + terminal_id@),
    {
        let found = find_session(&self.active_sessions, terminal_id);
        match found {
            Some(_) => Ok(()),
            None => Err(
                LovelyResError::SSHError(
                    "Terminal session does not exist: ".to_owned().concat(terminal_id),
                ),
            ),
        }
    }

    /// Ids of the sessions still live.
    pub fn get_active_terminal_sessions(&self) -> (r: Vec<String>)
        ensures
            r@.len() == self.active_sessions@.filter(|s: SSHSession| s.is_active).len(),
            forall|k: int|
                0 <= k < r@.len() ==> (#[trigger] r@[k])@ == self.active_sessions@.filter(
                    |s: SSHSession| s.is_active,
                )[k].id@,
    {
        let ghost all: Seq<SSHSession> = self.active_sessions@;
        let mut out: Vec<String> = Vec::new();
        let mut i: usize = 0;
        while i < self.active_sessions.len()
            invariant
                0 <= i <= all.len(),
                self.active_sessions@ == all,
                out@.len() == all.take(i as int).filter(|s: SSHSession| s.is_active).len(),
                forall|k: int|
                    0 <= k < out@.len() ==> (#[trigger] out@[k])@ == all.take(i as int).filter(
                        |s: SSHSession| s.is_active,
                    )[k].id@,
            decreases all.len() - i,
        {
            proof {
                reveal(Seq::filter);
                assert(all.take(i as int + 1).drop_last() =~= all.take(i as int));
                assert(all.take(i as int + 1).last() == all[i as int]);
            }
            if self.active_sessions[i].is_active {
                out.push(self.active_sessions[i].id.clone());
            }
            i = i + 1;
        }
        proof {
            assert(all.take(all.len() as int) =~= all);
        }
        out
    }

    /// Whether a live session exists under `terminal_id`.
    pub fn has_terminal_session(&self, terminal_id: &str) -> (r: bool)
        ensures
            r == ({
                let si = session_index(self.active_sessions@, terminal_id@);
                si >= 0 && self.active_sessions@[si].is_active
            }),
    {
        let found = find_session(&self.active_sessions, terminal_id);
        match found {
            Some(i) => self.active_sessions[i].is_active,
            None => false,
        }
    }

    /// Copies of the live session records.
    pub fn get_active_sessions(&self) -> (r: Vec<SSHSession>)
        ensures
            r@ == self.active_sessions@.filter(|s: SSHSession| s.is_active),
    {
        let ghost all: Seq<SSHSession> = self.active_sessions@;
        let mut out: Vec<SSHSession> = Vec::new();
        let mut i: usize = 0;
        while i < self.active_sessions.len()
            invariant
                0 <= i <= all.len(),
                self.active_sessions@ == all,
                out@ == all.take(i as int).filter(|s: SSHSession| s.is_active),
            decreases all.len() - i,
        {
            proof {
                reveal(Seq::filter);
                assert(all.take(i as int + 1).drop_last() =~= all.take(i as int));
                assert(all.take(i as int + 1).last() == all[i as int]);
            }
            if self.active_sessions[i].is_active {
                out.push(self.active_sessions[i].duplicate());
            }
            i = i + 1;
        }
        proof {
            assert(all.take(all.len() as int) =~= all);
        }
        out
    }

    /// A copy of the session record under `session_id`, live or not.
    pub fn get_session(&self, session_id: &str) -> (r: Option<SSHSession>)
        ensures
            match r {
                Some(s) => session_index(self.active_sessions@, session_id@) >= 0 && s
                    == self.active_sessions@[session_index(self.active_sessions@, session_id@)],
                None => session_index(self.active_sessions@, session_id@) == -1,
            },
    {
        let found = find_session(&self.active_sessions, session_id);
        match found {
            Some(i) => Some(self.active_sessions[i].duplicate()),
            None => None,
        }
    }

    /// Drops the session record under `session_id`; unknown ids are an
    /// error.
    pub fn close_session(&mut self, session_id: &str) -> (r: LovelyResResult<()>)
        requires
            old(self).well_formed(),
        ensures
            final(self).well_formed(),
            ({
                let si = session_index(old(self).active_sessions@, session_id@);
                if si == -1 {
                    &&& r matches Err(LovelyResError::SSHError(m)) && m@
                        == "Session does not exist: "@ + session_id@
                    &&& *final(self) == *old(self)
                } else {
                    &&& r is Ok
                    &&& final(self).active_sessions@ == old(self).active_sessions@.remove(si)
                }
            }),
    {
        let found = find_session(&self.active_sessions, session_id);
        match found {
            Some(i) => {
                self.active_sessions.remove(i);
                Ok(())
            },
            None => Err(
                LovelyResError::SSHError(
                    "Session does not exist: ".to_owned().concat(session_id),
                ),
            ),
        }
    }

    /// The periodic sweep: workers silent beyond the stale timeout are
    /// reclaimed even without an explicit stop, and each reclaimed
    /// worker's channel moves to `Closed`.  Returns how many workers were
    /// reclaimed.
    pub fn sweep_stale_workers(&mut self, now_ms: u64) -> (n: usize)
        requires
            old(self).well_formed(),
        ensures
            final(self).well_formed(),
            // silent workers are gone from the registry
            final(self).thread_manager.workers() == old(self).thread_manager.workers().filter(
                |t: crate::thread_lifecycle::TerminalThread| !crate::thread_lifecycle::thread_stale(
                    t,
                    now_ms,
                    old(self).thread_manager.thread_timeout_ms,
                ),
            ),
            n == old(self).thread_manager.workers().filter(
                |t: crate::thread_lifecycle::TerminalThread| crate::thread_lifecycle::thread_stale(
                    t,
                    now_ms,
                    old(self).thread_manager.thread_timeout_ms,
                ),
            ).len(),
            // every reclaimed worker's channel is closed
            ({
                let stale = old(self).thread_manager.workers().filter(
                    |t: crate::thread_lifecycle::TerminalThread| crate::thread_lifecycle::thread_stale(
                        t,
                        now_ms,
                        old(self).thread_manager.thread_timeout_ms,
                    ),
                );
                forall|k: int|
                    0 <= k < stale.len() ==> (spec_index_of(
                        final(self).channel_manager.registry(),
                        (#[trigger] stale[k]).thread_id@,
                    ) >= 0 ==> final(self).channel_manager.registry()[spec_index_of(
                        final(self).channel_manager.registry(),
                        stale[k].thread_id@,
                    )].state == ChannelState::Closed)
            }),
    {
        let reclaimed = self.thread_manager.cleanup_stale_threads(now_ms);
        close_channels_for(&mut self.channel_manager, &reclaimed);
        proof {
            let stale = old(self).thread_manager.workers().filter(
                |t: crate::thread_lifecycle::TerminalThread| crate::thread_lifecycle::thread_stale(
                    t,
                    now_ms,
                    old(self).thread_manager.thread_timeout_ms,
                ),
            );
            assert forall|k: int| 0 <= k < stale.len() implies (spec_index_of(
                self.channel_manager.registry(),
                (#[trigger] stale[k]).thread_id@,
            ) >= 0 ==> self.channel_manager.registry()[spec_index_of(
                self.channel_manager.registry(),
                stale[k].thread_id@,
            )].state == ChannelState::Closed) by {
                assert(reclaimed@[k]@ == stale[k].thread_id@);
            }
        }
        reclaimed.len()
    }
}


/// Moves the channel under each of `ids` to `Closed`.
fn close_channels_for(mgr: &mut SSHChannelManager, ids: &Vec<String>)
    requires
        old(mgr).well_formed(),
    ensures
        final(mgr).well_formed(),
        final(mgr).health_check_interval_ms == old(mgr).health_check_interval_ms,
        final(mgr).channel_timeout_ms == old(mgr).channel_timeout_ms,
        forall|j: int|
            0 <= j < ids@.len() ==> (spec_index_of(final(mgr).registry(), (#[trigger] ids@[j])@)
                >= 0 ==> final(mgr).registry()[spec_index_of(
                final(mgr).registry(),
                ids@[j]@,
            )].state == ChannelState::Closed),
{
    let mut k: usize = 0;
    while k < ids.len()
        invariant
            mgr.well_formed(),
            mgr.health_check_interval_ms == old(mgr).health_check_interval_ms,
            mgr.channel_timeout_ms == old(mgr).channel_timeout_ms,
            0 <= k <= ids@.len(),
            forall|j: int|
                0 <= j < k ==> (spec_index_of(mgr.registry(), (#[trigger] ids@[j])@) >= 0
                    ==> mgr.registry()[spec_index_of(mgr.registry(), ids@[j]@)].state
                    == ChannelState::Closed),
        decreases ids@.len() - k,
    {
        let ghost pre: Seq<crate::channel_state::ManagedChannel> = mgr.registry();
        mgr.close_channel(ids[k].as_str());
        proof {
            let post = mgr.registry();
            let closed_idx = spec_index_of(pre, ids@[k as int]@);
            if closed_idx >= 0 {
                assert(post.len() == pre.len());
                assert forall|i: int| 0 <= i < pre.len() implies (#[trigger] pre[i]).session_id@
                    == post[i].session_id@ by {}
                assert forall|j: int| 0 <= j < k + 1 implies (spec_index_of(
                    post,
                    (#[trigger] ids@[j])@,
                ) >= 0 ==> post[spec_index_of(post, ids@[j]@)].state == ChannelState::Closed) by {
                    crate::channel_state::lemma_index_same_ids(pre, post, ids@[j]@);
                    if spec_index_of(post, ids@[j]@) >= 0 {
                        crate::channel_state::lemma_index_of_found(post, ids@[j]@);
                        let idx = spec_index_of(post, ids@[j]@);
                        if j < k {
                            if idx != closed_idx {
                                assert(post[idx] == pre[idx]);
                            } else {
                                assert(post[closed_idx].state == ChannelState::Closed);
                            }
                        } else {
                            assert(idx == closed_idx);
                            assert(post[closed_idx].state == ChannelState::Closed);
                        }
                    }
                }
            } else {
                assert(post == pre);
                assert forall|j: int| 0 <= j < k + 1 implies (spec_index_of(
                    post,
                    (#[trigger] ids@[j])@,
                ) >= 0 ==> post[spec_index_of(post, ids@[j]@)].state == ChannelState::Closed) by {
                    if j == k {
                        assert(spec_index_of(post, ids@[j]@) == closed_idx);
                    }
                }
            }
        }
        k = k + 1;
    }
}


impl SSHManager {
    /// Copies of the stored commands.
    pub fn get_commands(&self) -> (r: Vec<SSHCommand>)
        ensures
            r@ == self.commands@,
    {
        let mut out: Vec<SSHCommand> = Vec::new();
        let mut i: usize = 0;
        while i < self.commands.len()
            invariant
                0 <= i <= self.commands@.len(),
                out@ == self.commands@.take(i as int),
            decreases self.commands@.len() - i,
        {
            out.push(self.commands[i].duplicate());
            proof {
                assert(self.commands@.take(i + 1) =~= self.commands@.take(i as int).push(
                    self.commands@[i as int],
                ));
            }
            i = i + 1;
        }
        proof {
            assert(self.commands@.take(self.commands@.len() as int) =~= self.commands@);
        }
        out
    }

    /// Copies of the commands marked favourite, in stored order.
    pub fn get_favorite_commands(&self) -> (r: Vec<SSHCommand>)
        ensures
            r@ == self.commands@.filter(|c: SSHCommand| c.favorite),
    {
        let ghost all: Seq<SSHCommand> = self.commands@;
        let mut out: Vec<SSHCommand> = Vec::new();
        let mut i: usize = 0;
        while i < self.commands.len()
            invariant
                0 <= i <= all.len(),
                self.commands@ == all,
                out@ == all.take(i as int).filter(|c: SSHCommand| c.favorite),
            decreases all.len() - i,
        {
            proof {
                reveal(Seq::filter);
                assert(all.take(i as int + 1).drop_last() =~= all.take(i as int));
                assert(all.take(i as int + 1).last() == all[i as int]);
            }
            if self.commands[i].favorite {
                out.push(self.commands[i].duplicate());
            }
            i = i + 1;
        }
        proof {
            assert(all.take(all.len() as int) =~= all);
        }
        out
    }

    /// Stores a command; a blank id is replaced by a fresh random one.
    /// Returns the id the command is stored under.
    pub fn add_command(&mut self, command: SSHCommand, now_ms: u64) -> (r: LovelyResResult<String>)
        requires
            old(self).well_formed(),
        ensures
            final(self).well_formed(),
            final(self).commands@.len() == old(self).commands@.len() + 1,
            r matches Ok(id) && id@ == final(self).commands@.last().id@,
            command.id@.len() > 0 ==> final(self).commands@.last().id == command.id,
            final(self).commands@.last().name == command.name,
            final(self).commands@.last().command == command.command,
            final(self).commands@.last().favorite == command.favorite,
            forall|i: int|
                0 <= i < old(self).commands@.len() ==> final(self).commands@[i] == #[trigger] old(self).commands@[i],
    {
        let _ = now_ms;
        let mut entry = command;
        if entry.id.as_str().is_empty() {
            entry.id = crate::ids::uuid_v4_string();
        }
        let id = entry.id.clone();
        self.commands.push(entry);
        Ok(id)
    }

    /// Drops the command stored under `command_id`; unknown ids are an
    /// error.
    pub fn remove_command(&mut self, command_id: &str) -> (r: LovelyResResult<()>)
        requires
            old(self).well_formed(),
        ensures
            final(self).well_formed(),
            ({
                let idx = key_index_of(old(self).commands@, command_id@, |c: SSHCommand| c.id@);
                if idx == -1 {
                    &&& r matches Err(LovelyResError::SSHError(m)) && m@
                        == "Command does not exist: "@ + command_id@
                    &&& *final(self) == *old(self)
                } else {
                    &&& r is Ok
                    &&& final(self).commands@ == old(self).commands@.remove(idx)
                }
            }),
    {
        let mut i: usize = 0;
        while i < self.commands.len()
            invariant
                0 <= i <= self.commands@.len(),
                *self == *old(self),
                self.well_formed(),
                forall|j: int| 0 <= j < i ==> (#[trigger] self.commands@[j]).id@ != command_id@,
            decreases self.commands@.len() - i,
        {
            if str_eq(self.commands[i].id.as_str(), command_id) {
                proof {
                    lemma_key_index_at(self.commands@, command_id@, |c: SSHCommand| c.id@, i as int);
                }
                self.commands.remove(i);
                return Ok(());
            }
            i = i + 1;
        }
        proof {
            lemma_key_index_at(
                self.commands@,
                command_id@,
                |c: SSHCommand| c.id@,
                self.commands@.len() as int,
            );
        }
        Err(
            LovelyResError::SSHError(
                "Command does not exist: ".to_owned().concat(command_id),
            ),
        )
    }

    /// Flips the favourite mark of the command under `command_id` and
    /// returns the new mark; unknown ids are an error.
    pub fn toggle_command_favorite(&mut self, command_id: &str) -> (r: LovelyResResult<bool>)
        requires
            old(self).well_formed(),
        ensures
            final(self).well_formed(),
            ({
                let idx = key_index_of(old(self).commands@, command_id@, |c: SSHCommand| c.id@);
                if idx == -1 {
                    &&& r matches Err(LovelyResError::SSHError(m)) && m@
                        == "Command does not exist: "@ + command_id@
                    &&& *final(self) == *old(self)
                } else {
                    &&& r matches Ok(v) && v == !old(self).commands@[idx].favorite
                    &&& final(self).commands@.len() == old(self).commands@.len()
                    &&& final(self).commands@[idx].favorite == !old(self).commands@[idx].favorite
                    &&& final(self).commands@[idx].id == old(self).commands@[idx].id
                    &&& final(self).commands@[idx].name == old(self).commands@[idx].name
                    &&& final(self).commands@[idx].command == old(self).commands@[idx].command
                    &&& forall|i: int|
                        0 <= i < old(self).commands@.len() && i != idx ==> final(self).commands@[i] == #[trigger] old(self).commands@[i]
                }
            }),
    {
        let mut i: usize = 0;
        while i < self.commands.len()
            invariant
                0 <= i <= self.commands@.len(),
                *self == *old(self),
                self.well_formed(),
                forall|j: int| 0 <= j < i ==> (#[trigger] self.commands@[j]).id@ != command_id@,
            decreases self.commands@.len() - i,
        {
            if str_eq(self.commands[i].id.as_str(), command_id) {
                proof {
                    lemma_key_index_at(self.commands@, command_id@, |c: SSHCommand| c.id@, i as int);
                }
                let mut entry = self.commands[i].duplicate();
                let flipped = !entry.favorite;
                entry.favorite = flipped;
                self.commands.set(i, entry);
                return Ok(flipped);
            }
            i = i + 1;
        }
        proof {
            lemma_key_index_at(
                self.commands@,
                command_id@,
                |c: SSHCommand| c.id@,
                self.commands@.len() as int,
            );
        }
        Err(
            LovelyResError::SSHError(
                "Command does not exist: ".to_owned().concat(command_id),
            ),
        )
    }

    /// Copies of the stored connection configurations.
    pub fn get_connections(&self) -> (r: Vec<SSHConnection>)
        ensures
            r@.len() == self.connections@.len(),
            forall|i: int|
                0 <= i < r@.len() ==> crate::types::same_connection(
                    #[trigger] r@[i],
                    self.connections@[i],
                ),
    {
        let mut out: Vec<SSHConnection> = Vec::new();
        let mut i: usize = 0;
        while i < self.connections.len()
            invariant
                0 <= i <= self.connections@.len(),
                out@.len() == i as int,
                forall|j: int|
                    0 <= j < i as int ==> crate::types::same_connection(
                        #[trigger] out@[j],
                        self.connections@[j],
                    ),
            decreases self.connections@.len() - i,
        {
            out.push(self.connections[i].duplicate());
            i = i + 1;
        }
        out
    }

    /// A copy of the connection configuration under `connection_id`.
    pub fn get_connection(&self, connection_id: &str) -> (r: Option<SSHConnection>)
        ensures
            match r {
                Some(c) => key_index_of(self.connections@, connection_id@, |x: SSHConnection| x.id@)
                    >= 0 && crate::types::same_connection(
                    c,
                    self.connections@[key_index_of(
                        self.connections@,
                        connection_id@,
                        |x: SSHConnection| x.id@,
                    )],
                ),
                None => key_index_of(self.connections@, connection_id@, |x: SSHConnection| x.id@)
                    == -1,
            },
    {
        let mut i: usize = 0;
        while i < self.connections.len()
            invariant
                0 <= i <= self.connections@.len(),
                forall|j: int| 0 <= j < i ==> (#[trigger] self.connections@[j]).id@ != connection_id@,
            decreases self.connections@.len() - i,
        {
            if str_eq(self.connections[i].id.as_str(), connection_id) {
                proof {
                    lemma_key_index_at(
                        self.connections@,
                        connection_id@,
                        |x: SSHConnection| x.id@,
                        i as int,
                    );
                }
                return Some(self.connections[i].duplicate());
            }
            i = i + 1;
        }
        proof {
            lemma_key_index_at(
                self.connections@,
                connection_id@,
                |x: SSHConnection| x.id@,
                self.connections@.len() as int,
            );
        }
        None
    }

    /// Stores a connection configuration; a blank id is replaced by a
    /// fresh random one.  Returns the id it is stored under.
    pub fn add_connection(&mut self, connection: SSHConnection) -> (r: LovelyResResult<String>)
        requires
            old(self).well_formed(),
        ensures
            final(self).well_formed(),
            final(self).connections@.len() == old(self).connections@.len() + 1,
            r matches Ok(id) && id@ == final(self).connections@.last().id@,
            connection.id@.len() > 0 ==> final(self).connections@.last().id == connection.id,
            final(self).connections@.last().host == connection.host,
            final(self).connections@.last().port == connection.port,
            forall|i: int|
                0 <= i < old(self).connections@.len() ==> final(self).connections@[i]
                    == #[trigger] old(self).connections@[i],
    {
        let mut entry = connection;
        if entry.id.as_str().is_empty() {
            entry.id = crate::ids::uuid_v4_string();
        }
        let id = entry.id.clone();
        self.connections.push(entry);
        Ok(id)
    }

    /// Drops the connection configuration under `connection_id`; unknown
    /// ids are an error.
    pub fn remove_connection(&mut self, connection_id: &str) -> (r: LovelyResResult<()>)
        requires
            old(self).well_formed(),
        ensures
            final(self).well_formed(),
            ({
                let idx = key_index_of(
                    old(self).connections@,
                    connection_id@,
                    |x: SSHConnection| x.id@,
                );
                if idx == -1 {
                    &&& r matches Err(LovelyResError::SSHError(m)) && m@
                        == "Connection does not exist: "@ + connection_id@
                    &&& *final(self) == *old(self)
                } else {
                    &&& r is Ok
                    &&& final(self).connections@ == old(self).connections@.remove(idx)
                }
            }),
    {
        let mut i: usize = 0;
        while i < self.connections.len()
            invariant
                0 <= i <= self.connections@.len(),
                *self == *old(self),
                self.well_formed(),
                forall|j: int| 0 <= j < i ==> (#[trigger] self.connections@[j]).id@ != connection_id@,
            decreases self.connections@.len() - i,
        {
            if str_eq(self.connections[i].id.as_str(), connection_id) {
                proof {
                    lemma_key_index_at(
                        self.connections@,
                        connection_id@,
                        |x: SSHConnection| x.id@,
                        i as int,
                    );
                }
                self.connections.remove(i);
                return Ok(());
            }
            i = i + 1;
        }
        proof {
            lemma_key_index_at(
                self.connections@,
                connection_id@,
                |x: SSHConnection| x.id@,
                self.connections@.len() as int,
            );
        }
        Err(
            LovelyResError::SSHError(
                "Connection does not exist: ".to_owned().concat(connection_id),
            ),
        )
    }
}


/// The output text a scripted outcome carries, empty for a failure.
pub open spec fn output_of(s: ScriptedExec) -> Seq<char> {
    match s {
        ScriptedExec::Output { output, .. } => output@,
        ScriptedExec::Fail { .. } => Seq::<char>::empty(),
    }
}

impl SSHManager {
    /// Runs one probe on the primary transport and returns its trimmed
    /// output.
    fn primary_probe(&mut self, command: &str, now_ms: u64) -> (r: LovelyResResult<String>)
        requires
            old(self).well_formed(),
        ensures
            final(self).well_formed(),
            final(self).dashboard_session == old(self).dashboard_session,
            final(self).terminal_ids == old(self).terminal_ids,
            final(self).terminal_flows == old(self).terminal_flows,
            final(self).active_sessions == old(self).active_sessions,
            final(self).channel_manager == old(self).channel_manager,
            final(self).thread_manager == old(self).thread_manager,
            final(self).last_connection_params == old(self).last_connection_params,
            final(self).current_connection_status == old(self).current_connection_status,
            final(self).disposable_scripts == old(self).disposable_scripts,
            final(self).connections == old(self).connections,
            final(self).commands == old(self).commands,
            final(self).health_monitor == old(self).health_monitor,
            old(self).current_session is None ==> (r matches Err(
                LovelyResError::ConnectionError(_),
            ) && final(self).current_session is None),
            old(self).current_session matches Some(t) ==> (final(self).current_session matches Some(t2) && t2.host == t.host && t2.port == t.port && t2.username == t.username
                && t2.blocking == t.blocking && (t.script@.len() == 0 ==> (r is Err && t2.script@
                == t.script@)) && (t.script@.len() > 0 ==> (t2.script@ == t.script@.drop_first()
                && (match t.script@[0] {
                ScriptedExec::Output { output, .. } => r matches Ok(s) && s@ == spec_trimmed(
                    output@,
                ),
                ScriptedExec::Fail { .. } => r is Err,
            })))),
    {
        match self.current_session.as_mut() {
            None => Err(LovelyResError::ConnectionError("No SSH connection established".to_owned())),
            Some(t) => {
                let outcome = t.exec(command, now_ms);
                match outcome {
                    Ok(out) => Ok(trimmed(out.output.as_str()).to_owned()),
                    Err(e) => Err(e),
                }
            },
        }
    }

    /// Probes the remote login shell over the primary transport: the
    /// shell's version and kind, then prompt, working directory, home,
    /// user, hostname and search path, each the trimmed output of its
    /// probe.  A failed first probe means the host has no bash and the
    /// remaining probes run under plain sh.
    pub fn get_bash_environment_info(&mut self, now_ms: u64) -> (r: LovelyResResult<
        BashEnvironmentInfo,
    >)
        requires
            old(self).well_formed(),
        ensures
            final(self).well_formed(),
            final(self).dashboard_session == old(self).dashboard_session,
            final(self).terminal_ids == old(self).terminal_ids,
            final(self).terminal_flows == old(self).terminal_flows,
            final(self).active_sessions == old(self).active_sessions,
            final(self).channel_manager == old(self).channel_manager,
            old(self).current_session is None ==> (r matches Err(
                LovelyResError::ConnectionError(_),
            ) && final(self).current_session is None),
            // with every probe answered, each field is the trimmed answer,
            // in probe order
            (old(self).current_session matches Some(t) && t.script@.len() >= 7 && (forall|i: int|
                0 <= i < 7 ==> (#[trigger] t.script@[i]) is Output)) ==> ({
                let t = old(self).current_session.unwrap();
                &&& r matches Ok(info)
                &&& info.shell_type@ == "bash"@
                &&& info.bash_version@ == spec_trimmed(output_of(t.script@[0]))
                &&& info.ps1@ == spec_trimmed(output_of(t.script@[1]))
                &&& info.pwd@ == spec_trimmed(output_of(t.script@[2]))
                &&& info.home@ == spec_trimmed(output_of(t.script@[3]))
                &&& info.user@ == spec_trimmed(output_of(t.script@[4]))
                &&& info.hostname@ == spec_trimmed(output_of(t.script@[5]))
                &&& info.path@ == spec_trimmed(output_of(t.script@[6]))
                &&& (final(self).current_session matches Some(t2) && t2.script@ == t.script@.skip(
                    7,
                ))
            }),
    {
        let first = self.primary_probe("echo $BASH_VERSION", now_ms);
        let use_bash: bool = first.is_ok();
        let bash_version: String = match first {
            Ok(v) => v,
            Err(_) => "sh (bash not available)".to_owned(),
        };
        let shell_type: String = if use_bash {
            "bash".to_owned()
        } else {
            "sh".to_owned()
        };
        let ps1 = self.primary_probe("echo \"$PS1\"", now_ms)?;
        let pwd = self.primary_probe("pwd", now_ms)?;
        let home = self.primary_probe("echo \"$HOME\"", now_ms)?;
        let user = self.primary_probe("whoami", now_ms)?;
        let hostname = self.primary_probe("hostname", now_ms)?;
        let path = self.primary_probe("echo \"$PATH\"", now_ms)?;
        proof {
            if old(self).current_session is Some {
                let t = old(self).current_session.unwrap();
                assert(t.script@.drop_first() =~= t.script@.skip(1));
                assert(t.script@.skip(1).drop_first() =~= t.script@.skip(2));
                assert(t.script@.skip(2).drop_first() =~= t.script@.skip(3));
                assert(t.script@.skip(3).drop_first() =~= t.script@.skip(4));
                assert(t.script@.skip(4).drop_first() =~= t.script@.skip(5));
                assert(t.script@.skip(5).drop_first() =~= t.script@.skip(6));
                assert(t.script@.skip(6).drop_first() =~= t.script@.skip(7));
                assert(t.script@.skip(1)[0] == t.script@[1]);
                assert(t.script@.skip(2)[0] == t.script@[2]);
                assert(t.script@.skip(3)[0] == t.script@[3]);
                assert(t.script@.skip(4)[0] == t.script@[4]);
                assert(t.script@.skip(5)[0] == t.script@[5]);
                assert(t.script@.skip(6)[0] == t.script@[6]);
            }
        }
        Ok(
            BashEnvironmentInfo {
                bash_version,
                shell_type,
                ps1,
                pwd,
                home,
                user,
                hostname,
                path,
            },
        )
    }
}

} // verus!
