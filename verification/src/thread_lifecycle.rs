//! Worker lifecycle manager: records for every background terminal
//! worker, cooperative shutdown signalling, and the periodic sweep that
//! reclaims workers which stopped reporting activity.
//!
//! Cancellation is cooperative: a worker observes its shutdown flag at
//! every loop iteration boundary; nothing here interrupts a thread.  The
//! records live in this verified registry while the operating-system
//! thread handles live with the surrounding application.

use vstd::prelude::*;

use vstd::string::StringExecFns;

use crate::errors::{LovelyResError, LovelyResResult};
use crate::text::{str_eq, u64_to_string, spec_dec};

verus! {

/// Lifecycle state of one terminal worker.
#[derive(Debug, Clone, PartialEq, Eq)]
pub enum TerminalThreadState {
    Starting,
    Running,
    Stopping,
    Stopped,
    Error(String),
}

impl TerminalThreadState {
    /// A field-for-field copy.
    pub fn duplicate(&self) -> (r: Self)
        ensures
            r == *self,
    {
        match self {
            TerminalThreadState::Starting => TerminalThreadState::Starting,
            TerminalThreadState::Running => TerminalThreadState::Running,
            TerminalThreadState::Stopping => TerminalThreadState::Stopping,
            TerminalThreadState::Stopped => TerminalThreadState::Stopped,
            TerminalThreadState::Error(m) => TerminalThreadState::Error(m.clone()),
        }
    }
}

/// Bookkeeping for one terminal worker.
///
/// `has_handle` records whether an operating-system thread has been
/// attached by the application; the handle itself stays outside the
/// verified state.
#[derive(Debug)]
pub struct TerminalThread {
    pub thread_id: String,
    pub has_handle: bool,
    pub state: TerminalThreadState,
    pub shutdown_signal: bool,
    pub created_at_ms: u64,
    pub last_activity_ms: u64,
}

impl TerminalThread {
    /// A fresh worker record, not yet attached to a thread.
    pub fn new(thread_id: String, now_ms: u64) -> (r: Self)
        ensures
            r.thread_id == thread_id,
            !r.has_handle,
            r.state == TerminalThreadState::Starting,
            !r.shutdown_signal,
            r.created_at_ms == now_ms,
            r.last_activity_ms == now_ms,
    {
        Self {
            thread_id,
            has_handle: false,
            state: TerminalThreadState::Starting,
            shutdown_signal: false,
            created_at_ms: now_ms,
            last_activity_ms: now_ms,
        }
    }

    /// Marks that the application attached the worker's thread handle.
    pub fn set_handle(&mut self)
        ensures
            final(self).has_handle,
            final(self).thread_id == old(self).thread_id,
            final(self).state == old(self).state,
            final(self).shutdown_signal == old(self).shutdown_signal,
            final(self).created_at_ms == old(self).created_at_ms,
            final(self).last_activity_ms == old(self).last_activity_ms,
    {
        self.has_handle = true;
    }

    /// Asks the worker to stop at its next iteration boundary.
    pub fn signal_shutdown(&mut self)
        ensures
            final(self).shutdown_signal,
            final(self).thread_id == old(self).thread_id,
            final(self).has_handle == old(self).has_handle,
            final(self).state == old(self).state,
            final(self).created_at_ms == old(self).created_at_ms,
            final(self).last_activity_ms == old(self).last_activity_ms,
    {
        self.shutdown_signal = true;
    }

    /// Whether a stop was requested.
    pub fn is_shutdown_requested(&self) -> (r: bool)
        ensures
            r == self.shutdown_signal,
    {
        self.shutdown_signal
    }

    /// Moves the worker to `new_state`.
    pub fn set_state(&mut self, new_state: TerminalThreadState)
        ensures
            final(self).state == new_state,
            final(self).thread_id == old(self).thread_id,
            final(self).has_handle == old(self).has_handle,
            final(self).shutdown_signal == old(self).shutdown_signal,
            final(self).created_at_ms == old(self).created_at_ms,
            final(self).last_activity_ms == old(self).last_activity_ms,
    {
        self.state = new_state;
    }

    /// The current state.
    pub fn get_state(&self) -> (r: TerminalThreadState)
        ensures
            r == self.state,
    {
        self.state.duplicate()
    }

    /// Stamps the record with the caller's clock.
    pub fn update_activity(&mut self, now_ms: u64)
        ensures
            final(self).last_activity_ms == now_ms,
            final(self).thread_id == old(self).thread_id,
            final(self).has_handle == old(self).has_handle,
            final(self).state == old(self).state,
            final(self).shutdown_signal == old(self).shutdown_signal,
            final(self).created_at_ms == old(self).created_at_ms,
    {
        self.last_activity_ms = now_ms;
    }

    /// Milliseconds since the worker last reported activity, zero if the
    /// clock ran backwards.
    pub open spec fn spec_idle(self, now_ms: u64) -> int {
        if now_ms >= self.last_activity_ms {
            now_ms - self.last_activity_ms
        } else {
            0
        }
    }

    /// Whether the worker has been silent longer than `timeout_ms`.
    pub fn is_stale(&self, now_ms: u64, timeout_ms: u64) -> (r: bool)
        ensures
            r == (self.spec_idle(now_ms) > timeout_ms),
    {
        let idle: u64 = if now_ms >= self.last_activity_ms {
            now_ms - self.last_activity_ms
        } else {
            0
        };
        idle > timeout_ms
    }
}

/// Position of the worker registered under `id`, or -1.
pub open spec fn thread_index_of(s: Seq<TerminalThread>, id: Seq<char>) -> int
    decreases s.len(),
{
    if s.len() == 0 {
        -1
    } else if s[0].thread_id@ == id {
        0
    } else {
        let r = thread_index_of(s.drop_first(), id);
        if r == -1 {
            -1
        } else {
            r + 1
        }
    }
}

/// What a left-to-right scan finds is what `thread_index_of` means.
proof fn lemma_thread_index_at(s: Seq<TerminalThread>, id: Seq<char>, j: int)
    requires
        0 <= j <= s.len(),
        forall|i: int| 0 <= i < j ==> (#[trigger] s[i]).thread_id@ != id,
        j < s.len() ==> s[j].thread_id@ == id,
    ensures
        thread_index_of(s, id) == if j == s.len() {
            -1
        } else {
            j
        },
    decreases s.len(),
{
    if s.len() == 0 {
    } else if s[0].thread_id@ == id {
        assert(j == 0);
    } else {
        let rest = s.drop_first();
        assert(forall|i: int| 0 <= i < j - 1 ==> (#[trigger] rest[i]).thread_id@ != id);
        lemma_thread_index_at(rest, id, j - 1);
    }
}

/// A lookup lands in the registry or reports -1.
pub proof fn lemma_thread_index_bounds(s: Seq<TerminalThread>, id: Seq<char>)
    ensures
        -1 <= thread_index_of(s, id) < s.len(),
    decreases s.len(),
{
    if s.len() == 0 {
    } else if s[0].thread_id@ == id {
    } else {
        lemma_thread_index_bounds(s.drop_first(), id);
    }
}

/// A negative lookup means the id is nowhere in the registry.
pub proof fn lemma_thread_index_missing(s: Seq<TerminalThread>, id: Seq<char>)
    requires
        thread_index_of(s, id) == -1,
    ensures
        forall|i: int| 0 <= i < s.len() ==> (#[trigger] s[i]).thread_id@ != id,
    decreases s.len(),
{
    if s.len() == 0 {
    } else if s[0].thread_id@ == id {
    } else {
        lemma_thread_index_bounds(s.drop_first(), id);
        lemma_thread_index_missing(s.drop_first(), id);
        assert(forall|i: int|
            1 <= i < s.len() ==> (#[trigger] s[i]).thread_id@ == s.drop_first()[i - 1].thread_id@);
    }
}

/// A lookup points at the first occurrence of the id.
pub proof fn lemma_thread_index_first(s: Seq<TerminalThread>, id: Seq<char>)
    requires
        thread_index_of(s, id) >= 0,
    ensures
        forall|i: int|
            0 <= i < thread_index_of(s, id) ==> (#[trigger] s[i]).thread_id@ != id,
    decreases s.len(),
{
    if s.len() == 0 {
    } else if s[0].thread_id@ == id {
    } else {
        lemma_thread_index_bounds(s.drop_first(), id);
        lemma_thread_index_first(s.drop_first(), id);
        assert(forall|i: int|
            1 <= i < s.len() ==> (#[trigger] s[i]).thread_id@ == s.drop_first()[i - 1].thread_id@);
    }
}

/// Whatever `thread_index_of` points at carries the id looked up.
pub proof fn lemma_thread_index_found(s: Seq<TerminalThread>, id: Seq<char>)
    requires
        thread_index_of(s, id) >= 0,
    ensures
        thread_index_of(s, id) < s.len(),
        s[thread_index_of(s, id)].thread_id@ == id,
    decreases s.len(),
{
    if s.len() == 0 {
    } else if s[0].thread_id@ == id {
    } else {
        lemma_thread_index_found(s.drop_first(), id);
    }
}

/// One pooled transport slot, identified by the id handed to the caller.
#[derive(Debug)]
pub struct PooledConnection {
    pub connection_id: String,
    pub created_at_ms: u64,
}

/// Bounded pool of reusable transports, identified by generated ids.
///
/// The transports themselves live with the application; the pool enforces
/// the capacity bound and hands out the identifying keys.
#[derive(Debug)]
pub struct SSHConnectionPool {
    pub connections: Vec<PooledConnection>,
    pub connection_counter: u64,
    pub max_connections: usize,
}

/// Position of the pooled connection registered under `id`, or -1.
pub open spec fn conn_index_of(s: Seq<PooledConnection>, id: Seq<char>) -> int
    decreases s.len(),
{
    if s.len() == 0 {
        -1
    } else if s[0].connection_id@ == id {
        0
    } else {
        let r = conn_index_of(s.drop_first(), id);
        if r == -1 {
            -1
        } else {
            r + 1
        }
    }
}

/// A lookup lands in the pool or reports -1.
pub proof fn lemma_conn_index_bounds(s: Seq<PooledConnection>, id: Seq<char>)
    ensures
        -1 <= conn_index_of(s, id) < s.len(),
    decreases s.len(),
{
    if s.len() == 0 {
    } else if s[0].connection_id@ == id {
    } else {
        lemma_conn_index_bounds(s.drop_first(), id);
    }
}

/// What a left-to-right scan finds is what `conn_index_of` means.
proof fn lemma_conn_index_at(s: Seq<PooledConnection>, id: Seq<char>, j: int)
    requires
        0 <= j <= s.len(),
        forall|i: int| 0 <= i < j ==> (#[trigger] s[i]).connection_id@ != id,
        j < s.len() ==> s[j].connection_id@ == id,
    ensures
        conn_index_of(s, id) == if j == s.len() {
            -1
        } else {
            j
        },
    decreases s.len(),
{
    if s.len() == 0 {
    } else if s[0].connection_id@ == id {
        assert(j == 0);
    } else {
        let rest = s.drop_first();
        assert(forall|i: int| 0 <= i < j - 1 ==> (#[trigger] rest[i]).connection_id@ != id);
        lemma_conn_index_at(rest, id, j - 1);
    }
}

impl SSHConnectionPool {
    /// An empty pool admitting at most `max_connections` transports.
    pub fn new(max_connections: usize) -> (r: Self)
        ensures
            r.connections@.len() == 0,
            r.connection_counter == 0,
            r.max_connections == max_connections,
    {
        Self { connections: Vec::new(), connection_counter: 0, max_connections }
    }

    /// Admits one more transport and returns its generated id.
    ///
    /// Fails when the pool is at capacity, or when the id counter is
    /// exhausted.
    pub fn add_connection(&mut self, now_ms: u64) -> (r: LovelyResResult<String>)
        ensures
            final(self).max_connections == old(self).max_connections,
            old(self).connections@.len() >= old(self).max_connections ==> (r matches Err(
                LovelyResError::SSHError(_),
            ) && *final(self) == *old(self)),
            (old(self).connections@.len() < old(self).max_connections
                && old(self).connection_counter < u64::MAX) ==> (r matches Ok(id) && id@
                == "conn_"@ + spec_dec(old(self).connection_counter as nat)
                && final(self).connection_counter == old(self).connection_counter + 1
                && final(self).connections@ == old(self).connections@.push(
                (PooledConnection {
                    connection_id: id,
                    created_at_ms: now_ms,
                }),
            )),
    {
        if self.connections.len() >= self.max_connections {
            return Err(LovelyResError::SSHError("Maximum connection pool size reached".to_owned()));
        }
        if self.connection_counter == u64::MAX {
            return Err(LovelyResError::SSHError("Connection id space exhausted".to_owned()));
        }
        let id = "conn_".to_owned().concat(u64_to_string(self.connection_counter).as_str());
        self.connection_counter = self.connection_counter + 1;
        let entry = PooledConnection { connection_id: id.clone(), created_at_ms: now_ms };
        self.connections.push(entry);
        Ok(id)
    }

    /// The pooled slot registered under `connection_id`.
    pub fn get_connection(&self, connection_id: &str) -> (r: Option<&PooledConnection>)
        ensures
            match r {
                Some(c) => conn_index_of(self.connections@, connection_id@) >= 0 && *c
                    == self.connections@[conn_index_of(self.connections@, connection_id@)],
                None => conn_index_of(self.connections@, connection_id@) == -1,
            },
    {
        let mut i: usize = 0;
        while i < self.connections.len()
            invariant
                0 <= i <= self.connections@.len(),
                forall|j: int|
                    0 <= j < i ==> (#[trigger] self.connections@[j]).connection_id@
                        != connection_id@,
            decreases self.connections@.len() - i,
        {
            if str_eq(self.connections[i].connection_id.as_str(), connection_id) {
                proof {
                    lemma_conn_index_at(self.connections@, connection_id@, i as int);
                }
                return Some(&self.connections[i]);
            }
            i = i + 1;
        }
        proof {
            lemma_conn_index_at(self.connections@, connection_id@, self.connections@.len() as int);
        }
        None
    }

    /// Releases the slot under `connection_id`; reports whether it existed.
    pub fn remove_connection(&mut self, connection_id: &str) -> (r: bool)
        ensures
            final(self).max_connections == old(self).max_connections,
            final(self).connection_counter == old(self).connection_counter,
            ({
                let prior = conn_index_of(old(self).connections@, connection_id@);
                if prior == -1 {
                    !r && final(self).connections@ == old(self).connections@
                } else {
                    r && final(self).connections@ == old(self).connections@.remove(prior)
                }
            }),
    {
        let mut i: usize = 0;
        while i < self.connections.len()
            invariant
                0 <= i <= self.connections@.len(),
                self.connections@ == old(self).connections@,
                self.max_connections == old(self).max_connections,
                self.connection_counter == old(self).connection_counter,
                forall|j: int|
                    0 <= j < i ==> (#[trigger] self.connections@[j]).connection_id@
                        != connection_id@,
            decreases self.connections@.len() - i,
        {
            if str_eq(self.connections[i].connection_id.as_str(), connection_id) {
                proof {
                    lemma_conn_index_at(self.connections@, connection_id@, i as int);
                }
                self.connections.remove(i);
                return true;
            }
            i = i + 1;
        }
        proof {
            lemma_conn_index_at(self.connections@, connection_id@, self.connections@.len() as int);
        }
        false
    }

    /// How many transports the pool holds.
    pub fn get_connection_count(&self) -> (r: usize)
        ensures
            r == self.connections@.len(),
    {
        self.connections.len()
    }
}

/// A worker silent beyond the timeout is due for reclamation.
pub open spec fn thread_stale(t: TerminalThread, now_ms: u64, timeout_ms: u64) -> bool {
    t.spec_idle(now_ms) > timeout_ms
}

/// Registry of terminal workers, plus the shared transport pool.
#[derive(Debug)]
pub struct SSHThreadManager {
    pub threads: Vec<TerminalThread>,
    pub connection_pool: SSHConnectionPool,
    pub shutdown_all: bool,
    pub cleanup_interval_ms: u64,
    pub thread_timeout_ms: u64,
    /// Whether the application started the periodic cleanup cadence.
    pub cleanup_running: bool,
}

impl SSHThreadManager {
    /// The registered worker records.
    pub open spec fn workers(self) -> Seq<TerminalThread> {
        self.threads@
    }

    /// An empty manager with the default cadence: a sweep every thirty
    /// seconds, workers reclaimed after five silent minutes, at most
    /// fifty pooled transports.
    pub fn new() -> (r: Self)
        ensures
            r.workers().len() == 0,
            r.connection_pool.connections@.len() == 0,
            r.connection_pool.max_connections == 50,
            !r.shutdown_all,
            r.cleanup_interval_ms == 30000,
            r.thread_timeout_ms == 300000,
            !r.cleanup_running,
    {
        Self {
            threads: Vec::new(),
            connection_pool: SSHConnectionPool::new(50),
            shutdown_all: false,
            cleanup_interval_ms: 30000,
            thread_timeout_ms: 300000,
            cleanup_running: false,
        }
    }

    /// Marks the periodic cleanup cadence as started; the application
    /// then calls [`Self::cleanup_stale_threads`] on that cadence.
    pub fn start_cleanup_thread(&mut self)
        ensures
            final(self).cleanup_running,
            final(self).threads == old(self).threads,
            final(self).shutdown_all == old(self).shutdown_all,
            final(self).cleanup_interval_ms == old(self).cleanup_interval_ms,
            final(self).thread_timeout_ms == old(self).thread_timeout_ms,
    {
        self.cleanup_running = true;
    }

    /// Registers a worker record under `terminal_id`, replacing any record
    /// already held under that id.  The record starts `Running` with its
    /// handle attached; the caller spawns the actual thread.
    pub fn create_terminal_thread(&mut self, terminal_id: String, now_ms: u64) -> (r:
        LovelyResResult<()>)
        ensures
            r is Ok,
            final(self).shutdown_all == old(self).shutdown_all,
            final(self).cleanup_interval_ms == old(self).cleanup_interval_ms,
            final(self).thread_timeout_ms == old(self).thread_timeout_ms,
            final(self).cleanup_running == old(self).cleanup_running,
            final(self).connection_pool == old(self).connection_pool,
            thread_index_of(final(self).workers(), terminal_id@) >= 0,
            final(self).workers()[thread_index_of(final(self).workers(), terminal_id@)] == (
            TerminalThread {
                thread_id: terminal_id,
                has_handle: true,
                state: TerminalThreadState::Running,
                shutdown_signal: false,
                created_at_ms: now_ms,
                last_activity_ms: now_ms,
            }),
            ({
                let prior = thread_index_of(old(self).workers(), terminal_id@);
                let fresh = (TerminalThread {
                    thread_id: terminal_id,
                    has_handle: true,
                    state: TerminalThreadState::Running,
                    shutdown_signal: false,
                    created_at_ms: now_ms,
                    last_activity_ms: now_ms,
                });
                if prior == -1 {
                    final(self).workers() == old(self).workers().push(fresh)
                } else {
                    final(self).workers() == old(self).workers().update(prior, fresh)
                }
            }),
    {
        let mut fresh = TerminalThread::new(terminal_id, now_ms);
        fresh.set_handle();
        fresh.set_state(TerminalThreadState::Running);
        let ghost oldreg: Seq<TerminalThread> = self.threads@;
        let found = self.find_thread_index(fresh.thread_id.as_str());
        let ghost id: Seq<char> = fresh.thread_id@;
        match found {
            Some(i) => {
                proof {
                    lemma_thread_index_found(oldreg, id);
                    lemma_thread_index_first(oldreg, id);
                }
                self.threads.set(i, fresh);
                proof {
                    let newreg = self.threads@;
                    assert forall|j: int| 0 <= j < i as int implies (
                    #[trigger] newreg[j]).thread_id@ != id by {
                        assert(newreg[j] == oldreg[j]);
                    }
                    lemma_thread_index_at(newreg, id, i as int);
                }
            },
            None => {
                proof {
                    lemma_thread_index_missing(oldreg, id);
                }
                self.threads.push(fresh);
                proof {
                    let newreg = self.threads@;
                    assert forall|j: int| 0 <= j < oldreg.len() as int implies (
                    #[trigger] newreg[j]).thread_id@ != id by {
                        assert(newreg[j] == oldreg[j]);
                    }
                    lemma_thread_index_at(newreg, id, oldreg.len() as int);
                }
            },
        }
        Ok(())
    }

    /// Position of `terminal_id` in the registry.
    fn find_thread_index(&self, terminal_id: &str) -> (r: Option<usize>)
        ensures
            match r {
                Some(i) => thread_index_of(self.workers(), terminal_id@) == i as int && i
                    < self.workers().len(),
                None => thread_index_of(self.workers(), terminal_id@) == -1,
            },
    {
        let mut i: usize = 0;
        while i < self.threads.len()
            invariant
                0 <= i <= self.threads@.len(),
                forall|j: int| 0 <= j < i ==> (#[trigger] self.threads@[j]).thread_id@ != terminal_id@,
            decreases self.threads@.len() - i,
        {
            if str_eq(self.threads[i].thread_id.as_str(), terminal_id) {
                proof {
                    lemma_thread_index_at(self.threads@, terminal_id@, i as int);
                }
                return Some(i);
            }
            i = i + 1;
        }
        proof {
            lemma_thread_index_at(self.threads@, terminal_id@, self.threads@.len() as int);
        }
        None
    }

    /// A read-only view of the worker under `terminal_id`.
    pub fn get_terminal_thread(&self, terminal_id: &str) -> (r: Option<&TerminalThread>)
        ensures
            match r {
                Some(t) => thread_index_of(self.workers(), terminal_id@) >= 0 && *t
                    == self.workers()[thread_index_of(self.workers(), terminal_id@)],
                None => thread_index_of(self.workers(), terminal_id@) == -1,
            },
    {
        let found = self.find_thread_index(terminal_id);
        match found {
            Some(i) => Some(&self.threads[i]),
            None => None,
        }
    }

    /// Stops the worker under `terminal_id`: its shutdown flag is raised
    /// and its record leaves the registry; the caller joins the thread.
    /// Unknown ids are an error.
    pub fn stop_terminal_thread(&mut self, terminal_id: &str) -> (r: LovelyResResult<()>)
        ensures
            final(self).shutdown_all == old(self).shutdown_all,
            final(self).cleanup_interval_ms == old(self).cleanup_interval_ms,
            final(self).thread_timeout_ms == old(self).thread_timeout_ms,
            final(self).cleanup_running == old(self).cleanup_running,
            final(self).connection_pool == old(self).connection_pool,
            ({
                let prior = thread_index_of(old(self).workers(), terminal_id@);
                if prior == -1 {
                    &&& r matches Err(LovelyResError::SSHError(m)) && m@ == "Terminal thread "@
                        + terminal_id@ + " not found"@
                    &&& final(self).workers() == old(self).workers()
                } else {
                    &&& r is Ok
                    &&& final(self).workers() == old(self).workers().remove(prior)
                }
            }),
    {
        let found = self.find_thread_index(terminal_id);
        match found {
            None => Err(
                LovelyResError::SSHError(
                    "Terminal thread ".to_owned().concat(terminal_id).concat(" not found"),
                ),
            ),
            Some(i) => {
                let mut record = self.threads.remove(i);
                record.signal_shutdown();
                record.set_state(TerminalThreadState::Stopping);
                Ok(())
            },
        }
    }

    /// Raises the global shutdown flag and empties the registry, signalling
    /// every worker; returns how many workers were told to stop.  The
    /// caller joins the threads.
    pub fn stop_all_threads(&mut self) -> (n: usize)
        ensures
            n == old(self).workers().len(),
            final(self).workers().len() == 0,
            final(self).shutdown_all,
            final(self).cleanup_interval_ms == old(self).cleanup_interval_ms,
            final(self).thread_timeout_ms == old(self).thread_timeout_ms,
            final(self).connection_pool == old(self).connection_pool,
    {
        self.shutdown_all = true;
        let n = self.threads.len();
        self.threads.clear();
        n
    }

    /// The periodic sweep: removes every worker silent beyond the timeout,
    /// even if it never received an explicit stop, and returns their ids so
    /// the caller can reclaim what they owned.
    pub fn cleanup_stale_threads(&mut self, now_ms: u64) -> (reclaimed: Vec<String>)
        ensures
            final(self).shutdown_all == old(self).shutdown_all,
            final(self).cleanup_interval_ms == old(self).cleanup_interval_ms,
            final(self).thread_timeout_ms == old(self).thread_timeout_ms,
            final(self).cleanup_running == old(self).cleanup_running,
            final(self).connection_pool == old(self).connection_pool,
            final(self).workers() == old(self).workers().filter(
                |t: TerminalThread| !thread_stale(t, now_ms, old(self).thread_timeout_ms),
            ),
            reclaimed@.len() == old(self).workers().filter(
                |t: TerminalThread| thread_stale(t, now_ms, old(self).thread_timeout_ms),
            ).len(),
            forall|k: int|
                0 <= k < reclaimed@.len() ==> (#[trigger] reclaimed@[k])@ == old(
                self,
                ).workers().filter(
                    |t: TerminalThread| thread_stale(t, now_ms, old(self).thread_timeout_ms),
                )[k].thread_id@,
    {
        let ghost oldreg: Seq<TerminalThread> = self.threads@;
        let ghost timeout: u64 = self.thread_timeout_ms;
        let mut reclaimed: Vec<String> = Vec::new();
        let mut i: usize = 0;
        let ghost mut j: int = 0;
        while i < self.threads.len()
            invariant
                0 <= i <= self.threads@.len(),
                0 <= j <= oldreg.len(),
                timeout == self.thread_timeout_ms,
                self.thread_timeout_ms == old(self).thread_timeout_ms,
                self.shutdown_all == old(self).shutdown_all,
                self.cleanup_interval_ms == old(self).cleanup_interval_ms,
                self.cleanup_running == old(self).cleanup_running,
                self.connection_pool == old(self).connection_pool,
                oldreg == old(self).workers(),
                self.threads@ =~= oldreg.take(j).filter(
                    |t: TerminalThread| !thread_stale(t, now_ms, timeout),
                ) + oldreg.skip(j),
                i as int == oldreg.take(j).filter(
                    |t: TerminalThread| !thread_stale(t, now_ms, timeout),
                ).len(),
                reclaimed@.len() == oldreg.take(j).filter(
                    |t: TerminalThread| thread_stale(t, now_ms, timeout),
                ).len(),
                forall|k: int|
                    0 <= k < reclaimed@.len() ==> (#[trigger] reclaimed@[k])@ == oldreg.take(
                        j,
                    ).filter(|t: TerminalThread| thread_stale(t, now_ms, timeout))[k].thread_id@,
            decreases self.threads@.len() - i,
        {
            proof {
                assert(j < oldreg.len());
                assert(self.threads@[i as int] == oldreg.skip(j)[0]);
                assert(oldreg.skip(j)[0] == oldreg[j]);
                reveal(Seq::filter);
                assert(oldreg.take(j + 1).drop_last() =~= oldreg.take(j));
                assert(oldreg.take(j + 1).last() == oldreg[j]);
            }
            if self.threads[i].is_stale(now_ms, self.thread_timeout_ms) {
                let record = self.threads.remove(i);
                reclaimed.push(record.thread_id);
                proof {
                    j = j + 1;
                    assert(self.threads@ =~= oldreg.take(j).filter(
                        |t: TerminalThread| !thread_stale(t, now_ms, timeout),
                    ) + oldreg.skip(j));
                }
            } else {
                i = i + 1;
                proof {
                    j = j + 1;
                    assert(self.threads@ =~= oldreg.take(j).filter(
                        |t: TerminalThread| !thread_stale(t, now_ms, timeout),
                    ) + oldreg.skip(j));
                }
            }
        }
        proof {
            assert(j == oldreg.len());
            assert(oldreg.take(j) =~= oldreg);
            assert(oldreg.skip(j) =~= Seq::<TerminalThread>::empty());
            assert(self.threads@ =~= oldreg.filter(
                |t: TerminalThread| !thread_stale(t, now_ms, timeout),
            ));
        }
        reclaimed
    }

    /// A worker is healthy while it runs and keeps reporting activity.
    pub fn is_thread_healthy(&self, terminal_id: &str, now_ms: u64) -> (r: bool)
        ensures
            r == ({
                let idx = thread_index_of(self.workers(), terminal_id@);
                &&& idx >= 0
                &&& self.workers()[idx].state == TerminalThreadState::Running
                &&& !thread_stale(self.workers()[idx], now_ms, self.thread_timeout_ms)
            }),
    {
        let found = self.find_thread_index(terminal_id);
        match found {
            None => false,
            Some(i) => {
                let running = match &self.threads[i].state {
                    TerminalThreadState::Running => true,
                    _ => false,
                };
                running && !self.threads[i].is_stale(now_ms, self.thread_timeout_ms)
            },
        }
    }

    /// A snapshot of every worker: id, state and age in milliseconds.
    pub fn get_thread_stats(&self, now_ms: u64) -> (r: Vec<(String, TerminalThreadState, u64)>)
        ensures
            r@.len() == self.workers().len(),
            forall|i: int|
                0 <= i < r@.len() ==> (#[trigger] r@[i]).0@ == self.workers()[i].thread_id@
                    && r@[i].1 == self.workers()[i].state && r@[i].2 as int == worker_age(
                    self.workers()[i],
                    now_ms,
                ),
    {
        let mut out: Vec<(String, TerminalThreadState, u64)> = Vec::new();
        let mut i: usize = 0;
        while i < self.threads.len()
            invariant
                0 <= i <= self.threads@.len(),
                out@.len() == i as int,
                forall|k: int|
                    0 <= k < i as int ==> (#[trigger] out@[k]).0@ == self.threads@[k].thread_id@
                        && out@[k].1 == self.threads@[k].state && out@[k].2 as int == worker_age(
                        self.threads@[k],
                        now_ms,
                    ),
            decreases self.threads@.len() - i,
        {
            let t = &self.threads[i];
            let age: u64 = if now_ms >= t.created_at_ms {
                now_ms - t.created_at_ms
            } else {
                0
            };
            out.push((t.thread_id.clone(), t.get_state(), age));
            i = i + 1;
        }
        out
    }

    /// Admits a transport into the shared pool.
    pub fn add_connection(&mut self, now_ms: u64) -> (r: LovelyResResult<String>)
        ensures
            final(self).threads == old(self).threads,
            old(self).connection_pool.connections@.len() >= old(
                self,
            ).connection_pool.max_connections ==> r is Err,
            (old(self).connection_pool.connections@.len() < old(
                self,
            ).connection_pool.max_connections && old(self).connection_pool.connection_counter
                < u64::MAX) ==> r is Ok,
    {
        self.connection_pool.add_connection(now_ms)
    }

    /// The pooled slot under `connection_id`.
    pub fn get_connection(&self, connection_id: &str) -> (r: Option<&PooledConnection>)
        ensures
            r is Some <==> conn_index_of(self.connection_pool.connections@, connection_id@) >= 0,
    {
        self.connection_pool.get_connection(connection_id)
    }

    /// Releases the pooled slot under `connection_id`.
    pub fn remove_connection(&mut self, connection_id: &str) -> (r: bool)
        ensures
            final(self).threads == old(self).threads,
            r == (conn_index_of(old(self).connection_pool.connections@, connection_id@) >= 0),
    {
        proof {
            lemma_conn_index_bounds(self.connection_pool.connections@, connection_id@);
        }
        self.connection_pool.remove_connection(connection_id)
    }
}

/// Milliseconds since the worker was created, zero if the clock ran
/// backwards.
pub open spec fn worker_age(t: TerminalThread, now_ms: u64) -> int {
    if now_ms >= t.created_at_ms {
        now_ms - t.created_at_ms
    } else {
        0
    }
}

} // verus!
