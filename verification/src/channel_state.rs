//! Channel state tracker: per-channel liveness, staleness detection and a
//! registry keyed by session id.
//!
//! The tracker never performs I/O itself: the worker that owns the real
//! channel feeds activity timestamps and end-of-stream signals in, and
//! checks [`SSHChannelManager::validate_channel_for_write`] before every
//! write.

use vstd::prelude::*;

use vstd::string::StringExecFns;

use crate::errors::{LovelyResError, LovelyResResult};
use crate::text::str_eq;

verus! {

/// Lifecycle state of one logical channel.
#[derive(Debug, Clone, PartialEq, Eq)]
pub enum ChannelState {
    Active,
    Closing,
    Closed,
    Error(String),
}

impl ChannelState {
    /// A field-for-field copy.
    pub fn duplicate(&self) -> (r: Self)
        ensures
            r == *self,
    {
        match self {
            ChannelState::Active => ChannelState::Active,
            ChannelState::Closing => ChannelState::Closing,
            ChannelState::Closed => ChannelState::Closed,
            ChannelState::Error(m) => ChannelState::Error(m.clone()),
        }
    }
}

/// Bookkeeping for one channel: state, activity and end-of-stream flag.
///
/// The real channel object lives with the worker that owns it; this record
/// is what the registry and the sweeps reason about.
#[derive(Debug)]
pub struct ManagedChannel {
    pub session_id: String,
    pub state: ChannelState,
    pub last_activity_ms: u64,
    pub created_at_ms: u64,
    /// Set when the remote side signalled end-of-stream.
    pub eof: bool,
}

impl ManagedChannel {
    /// A fresh active channel record.
    pub fn new(session_id: String, now_ms: u64) -> (r: Self)
        ensures
            r.session_id == session_id,
            r.state == ChannelState::Active,
            r.last_activity_ms == now_ms,
            r.created_at_ms == now_ms,
            !r.eof,
    {
        Self {
            session_id,
            state: ChannelState::Active,
            last_activity_ms: now_ms,
            created_at_ms: now_ms,
            eof: false,
        }
    }

    /// Only an `Active` channel accepts writes.
    pub fn is_writable(&self) -> (r: bool)
        ensures
            r == (self.state == ChannelState::Active),
    {
        match &self.state {
            ChannelState::Active => true,
            _ => false,
        }
    }

    /// Only an `Active` channel delivers reads.
    pub fn is_readable(&self) -> (r: bool)
        ensures
            r == (self.state == ChannelState::Active),
    {
        match &self.state {
            ChannelState::Active => true,
            _ => false,
        }
    }

    /// Stamps the record with the caller's clock.
    pub fn update_activity(&mut self, now_ms: u64)
        ensures
            final(self).last_activity_ms == now_ms,
            final(self).session_id == old(self).session_id,
            final(self).state == old(self).state,
            final(self).created_at_ms == old(self).created_at_ms,
            final(self).eof == old(self).eof,
    {
        self.last_activity_ms = now_ms;
    }

    /// Moves the channel to `new_state`.
    pub fn set_state(&mut self, new_state: ChannelState)
        ensures
            final(self).state == new_state,
            final(self).session_id == old(self).session_id,
            final(self).last_activity_ms == old(self).last_activity_ms,
            final(self).created_at_ms == old(self).created_at_ms,
            final(self).eof == old(self).eof,
    {
        self.state = new_state;
    }

    /// The current state.
    pub fn get_state(&self) -> (r: ChannelState)
        ensures
            r == self.state,
    {
        self.state.duplicate()
    }

    /// Milliseconds since the last recorded activity, zero if the clock
    /// ran backwards.
    pub open spec fn spec_idle(self, now_ms: u64) -> int {
        if now_ms >= self.last_activity_ms {
            now_ms - self.last_activity_ms
        } else {
            0
        }
    }

    /// Whether the channel has been idle longer than `timeout_ms`.
    pub fn is_stale(&self, now_ms: u64, timeout_ms: u64) -> (r: bool)
        ensures
            r == (self.spec_idle(now_ms) > timeout_ms),
    {
        let idle: u64 = if now_ms >= self.last_activity_ms {
            now_ms - self.last_activity_ms
        } else {
            0
        };
        idle > timeout_ms
    }

    /// Records that the remote side reached end-of-stream.
    pub fn mark_eof(&mut self)
        ensures
            final(self).eof,
            final(self).session_id == old(self).session_id,
            final(self).state == old(self).state,
            final(self).last_activity_ms == old(self).last_activity_ms,
            final(self).created_at_ms == old(self).created_at_ms,
    {
        self.eof = true;
    }
}

/// Position of the channel registered under `id`, or -1.
pub open spec fn spec_index_of(s: Seq<ManagedChannel>, id: Seq<char>) -> int
    decreases s.len(),
{
    if s.len() == 0 {
        -1
    } else if s[0].session_id@ == id {
        0
    } else {
        let r = spec_index_of(s.drop_first(), id);
        if r == -1 {
            -1
        } else {
            r + 1
        }
    }
}

/// What a left-to-right scan finds is what `spec_index_of` means.
proof fn lemma_index_of_at(s: Seq<ManagedChannel>, id: Seq<char>, j: int)
    requires
        0 <= j <= s.len(),
        forall|i: int| 0 <= i < j ==> (#[trigger] s[i]).session_id@ != id,
        j < s.len() ==> s[j].session_id@ == id,
    ensures
        spec_index_of(s, id) == if j == s.len() {
            -1
        } else {
            j
        },
    decreases s.len(),
{
    if s.len() == 0 {
    } else if s[0].session_id@ == id {
        assert(j == 0);
    } else {
        let rest = s.drop_first();
        assert(forall|i: int| 0 <= i < j - 1 ==> (#[trigger] rest[i]).session_id@ != id);
        lemma_index_of_at(rest, id, j - 1);
    }
}

/// A lookup lands in the registry or reports -1.
pub proof fn lemma_index_of_bounds(s: Seq<ManagedChannel>, id: Seq<char>)
    ensures
        -1 <= spec_index_of(s, id) < s.len(),
    decreases s.len(),
{
    if s.len() == 0 {
    } else if s[0].session_id@ == id {
    } else {
        lemma_index_of_bounds(s.drop_first(), id);
    }
}

/// A negative lookup means the id is nowhere in the registry.
pub proof fn lemma_index_of_missing(s: Seq<ManagedChannel>, id: Seq<char>)
    requires
        spec_index_of(s, id) == -1,
    ensures
        forall|i: int| 0 <= i < s.len() ==> (#[trigger] s[i]).session_id@ != id,
    decreases s.len(),
{
    if s.len() == 0 {
    } else if s[0].session_id@ == id {
    } else {
        lemma_index_of_bounds(s.drop_first(), id);
        lemma_index_of_missing(s.drop_first(), id);
        assert(forall|i: int|
            1 <= i < s.len() ==> (#[trigger] s[i]).session_id@ == s.drop_first()[i
                - 1].session_id@);
    }
}

/// Whatever `spec_index_of` points at carries the id looked up.
pub proof fn lemma_index_of_found(s: Seq<ManagedChannel>, id: Seq<char>)
    requires
        spec_index_of(s, id) >= 0,
    ensures
        spec_index_of(s, id) < s.len(),
        s[spec_index_of(s, id)].session_id@ == id,
    decreases s.len(),
{
    if s.len() == 0 {
    } else if s[0].session_id@ == id {
    } else {
        lemma_index_of_found(s.drop_first(), id);
    }
}

/// Registry of live channels with health bookkeeping.
#[derive(Debug)]
pub struct SSHChannelManager {
    pub channels: Vec<ManagedChannel>,
    pub health_check_interval_ms: u64,
    pub channel_timeout_ms: u64,
}

impl SSHChannelManager {
    /// The registered channel records.
    pub open spec fn registry(self) -> Seq<ManagedChannel> {
        self.channels@
    }

    /// Each session id is registered at most once.
    pub open spec fn well_formed(self) -> bool {
        forall|i: int, j: int|
            0 <= i < j < self.channels@.len() ==> (#[trigger] self.channels@[i]).session_id@ != (
            #[trigger] self.channels@[j]).session_id@
    }

    /// An empty registry with the default timeouts: hourly health checks
    /// and a practically unbounded idle allowance.
    pub fn new() -> (r: Self)
        ensures
            r.well_formed(),
            r.registry().len() == 0,
            r.health_check_interval_ms == 3600000,
            r.channel_timeout_ms == u64::MAX / 2,
    {
        Self {
            channels: Vec::new(),
            health_check_interval_ms: 3600000,
            channel_timeout_ms: u64::MAX / 2,
        }
    }

    /// Position of `session_id` in the registry.
    fn find_index(&self, session_id: &str) -> (r: Option<usize>)
        ensures
            match r {
                Some(i) => spec_index_of(self.registry(), session_id@) == i as int && i
                    < self.registry().len(),
                None => spec_index_of(self.registry(), session_id@) == -1,
            },
    {
        let mut i: usize = 0;
        while i < self.channels.len()
            invariant
                0 <= i <= self.channels@.len(),
                forall|j: int|
                    0 <= j < i ==> (#[trigger] self.channels@[j]).session_id@ != session_id@,
            decreases self.channels@.len() - i,
        {
            if str_eq(self.channels[i].session_id.as_str(), session_id) {
                proof {
                    lemma_index_of_at(self.channels@, session_id@, i as int);
                }
                return Some(i);
            }
            i = i + 1;
        }
        proof {
            lemma_index_of_at(self.channels@, session_id@, self.channels@.len() as int);
        }
        None
    }

    /// Registers a channel under `session_id`, replacing any channel
    /// already held under that id.
    pub fn register_channel(&mut self, session_id: String, now_ms: u64)
        requires
            old(self).well_formed(),
        ensures
            final(self).well_formed(),
            final(self).health_check_interval_ms == old(self).health_check_interval_ms,
            final(self).channel_timeout_ms == old(self).channel_timeout_ms,
            spec_index_of(final(self).registry(), session_id@) >= 0,
            final(self).registry()[spec_index_of(final(self).registry(), session_id@)] == (
            ManagedChannel {
                session_id: session_id,
                state: ChannelState::Active,
                last_activity_ms: now_ms,
                created_at_ms: now_ms,
                eof: false,
            }),
            ({
                let prior = spec_index_of(old(self).registry(), session_id@);
                let fresh = (ManagedChannel {
                    session_id: session_id,
                    state: ChannelState::Active,
                    last_activity_ms: now_ms,
                    created_at_ms: now_ms,
                    eof: false,
                });
                if prior == -1 {
                    final(self).registry() == old(self).registry().push(fresh)
                } else {
                    final(self).registry() == old(self).registry().update(prior, fresh)
                }
            }),
    {
        let ghost oldreg: Seq<ManagedChannel> = self.channels@;
        let fresh = ManagedChannel::new(session_id, now_ms);
        let found = self.find_index(fresh.session_id.as_str());
        match found {
            Some(i) => {
                proof {
                    lemma_index_of_found(oldreg, fresh.session_id@);
                }
                self.channels.set(i, fresh);
                proof {
                    let newreg = self.channels@;
                    assert forall|a: int, b: int| 0 <= a < b < newreg.len() implies (
                    #[trigger] newreg[a]).session_id@ != (#[trigger] newreg[b]).session_id@ by {
                        assert(oldreg[a].session_id@ != oldreg[b].session_id@);
                        assert(newreg[a].session_id@ == oldreg[a].session_id@);
                        assert(newreg[b].session_id@ == oldreg[b].session_id@);
                    }
                    assert forall|j: int| 0 <= j < i as int implies (
                    #[trigger] newreg[j]).session_id@ != session_id@ by {
                        assert(oldreg[j].session_id@ != oldreg[i as int].session_id@);
                    }
                    lemma_index_of_at(newreg, session_id@, i as int);
                }
            },
            None => {
                self.channels.push(fresh);
                proof {
                    lemma_index_of_missing(oldreg, session_id@);
                    let newreg = self.channels@;
                    assert forall|a: int, b: int| 0 <= a < b < newreg.len() implies (
                    #[trigger] newreg[a]).session_id@ != (#[trigger] newreg[b]).session_id@ by {
                        if b < oldreg.len() {
                            assert(oldreg[a].session_id@ != oldreg[b].session_id@);
                        } else {
                            assert(newreg[b] == fresh);
                            assert(oldreg[a].session_id@ != session_id@);
                        }
                    }
                    lemma_index_of_at(newreg, session_id@, oldreg.len() as int);
                }
            },
        }
    }

    /// A read-only view of the channel under `session_id`.
    pub fn get_channel(&self, session_id: &str) -> (r: Option<&ManagedChannel>)
        ensures
            match r {
                Some(c) => spec_index_of(self.registry(), session_id@) >= 0 && *c == self.registry(
                )[spec_index_of(self.registry(), session_id@)],
                None => spec_index_of(self.registry(), session_id@) == -1,
            },
    {
        let found = self.find_index(session_id);
        match found {
            Some(i) => Some(&self.channels[i]),
            None => None,
        }
    }

    /// Drops the channel under `session_id`, if registered.
    pub fn remove_channel(&mut self, session_id: &str)
        requires
            old(self).well_formed(),
        ensures
            final(self).well_formed(),
            final(self).health_check_interval_ms == old(self).health_check_interval_ms,
            final(self).channel_timeout_ms == old(self).channel_timeout_ms,
            ({
                let prior = spec_index_of(old(self).registry(), session_id@);
                if prior == -1 {
                    final(self).registry() == old(self).registry()
                } else {
                    final(self).registry() == old(self).registry().remove(prior)
                }
            }),
    {
        let found = self.find_index(session_id);
        match found {
            Some(i) => {
                self.channels.remove(i);
            },
            None => {},
        }
    }

    /// The transport-level keepalive probe is deliberately skipped: actual
    /// traffic is the health signal, so this always reports healthy.
    pub fn check_session_health(&self) -> (r: LovelyResResult<bool>)
        ensures
            r == LovelyResResult::<bool>::Ok(true),
    {
        Ok(true)
    }

    /// Checks that the channel under `session_id` can take a write.
    ///
    /// Fails when the channel is unknown, not `Active`, idle beyond the
    /// timeout (the record then moves to an error state) or past
    /// end-of-stream (the record then moves to `Closed`).  Callers must
    /// re-check after any failure before writing.
    pub fn validate_channel_for_write(&mut self, session_id: &str, now_ms: u64) -> (r:
        LovelyResResult<()>)
        requires
            old(self).well_formed(),
        ensures
            final(self).well_formed(),
            final(self).health_check_interval_ms == old(self).health_check_interval_ms,
            final(self).channel_timeout_ms == old(self).channel_timeout_ms,
            ({
                let idx = spec_index_of(old(self).registry(), session_id@);
                if idx == -1 {
                    &&& r matches Err(LovelyResError::SSHError(m)) && m@ == msg_not_found(
                        session_id@,
                    )
                    &&& final(self).registry() == old(self).registry()
                } else {
                    let c = old(self).registry()[idx];
                    if c.state != ChannelState::Active {
                        &&& r matches Err(LovelyResError::SSHError(m)) && m@ == msg_not_writable(
                            session_id@,
                        )
                        &&& final(self).registry() == old(self).registry()
                    } else if c.spec_idle(now_ms) > old(self).channel_timeout_ms {
                        &&& r matches Err(LovelyResError::SSHError(m)) && m@ == msg_timed_out(
                            session_id@,
                        )
                        &&& stepped_to_state(old(self).registry(), final(self).registry(), idx)
                        &&& final(self).registry()[idx].state matches ChannelState::Error(em)
                            && em@ == "Channel timeout"@
                    } else if c.eof {
                        &&& r matches Err(LovelyResError::SSHError(m)) && m@ == msg_eof(
                            session_id@,
                        )
                        &&& stepped_to_state(old(self).registry(), final(self).registry(), idx)
                        &&& final(self).registry()[idx].state == ChannelState::Closed
                    } else {
                        &&& r is Ok
                        &&& final(self).registry() == old(self).registry()
                    }
                }
            }),
    {
        let found = self.find_index(session_id);
        match found {
            None => Err(
                LovelyResError::SSHError(
                    "Channel ".to_owned().concat(session_id).concat(" not found"),
                ),
            ),
            Some(i) => {
                proof {
                    lemma_index_of_found(self.channels@, session_id@);
                }
                if !self.channels[i].is_writable() {
                    return Err(
                        LovelyResError::SSHError(
                            "Channel ".to_owned().concat(session_id).concat(" is not writable"),
                        ),
                    );
                }
                if self.channels[i].is_stale(now_ms, self.channel_timeout_ms) {
                    let replacement = ManagedChannel {
                        session_id: self.channels[i].session_id.clone(),
                        state: ChannelState::Error("Channel timeout".to_owned()),
                        last_activity_ms: self.channels[i].last_activity_ms,
                        created_at_ms: self.channels[i].created_at_ms,
                        eof: self.channels[i].eof,
                    };
                    self.channels.set(i, replacement);
                    proof {
                        lemma_same_ids_wf(old(self).registry(), self.channels@);
                    }
                    return Err(
                        LovelyResError::SSHError(
                            "Channel ".to_owned().concat(session_id).concat(" has timed out"),
                        ),
                    );
                }
                if self.channels[i].eof {
                    let replacement = ManagedChannel {
                        session_id: self.channels[i].session_id.clone(),
                        state: ChannelState::Closed,
                        last_activity_ms: self.channels[i].last_activity_ms,
                        created_at_ms: self.channels[i].created_at_ms,
                        eof: self.channels[i].eof,
                    };
                    self.channels.set(i, replacement);
                    proof {
                        lemma_same_ids_wf(old(self).registry(), self.channels@);
                    }
                    return Err(
                        LovelyResError::SSHError(
                            "Channel ".to_owned().concat(session_id).concat(" has reached EOF"),
                        ),
                    );
                }
                Ok(())
            },
        }
    }

    /// Validates and then declines: actual bytes must go through the
    /// worker that owns the channel object, never through the registry.
    pub fn safe_write(&mut self, session_id: &str, _data: &[u8], now_ms: u64) -> (r:
        LovelyResResult<usize>)
        requires
            old(self).well_formed(),
        ensures
            final(self).well_formed(),
            final(self).health_check_interval_ms == old(self).health_check_interval_ms,
            final(self).channel_timeout_ms == old(self).channel_timeout_ms,
            r is Err,
            spec_index_of(old(self).registry(), session_id@) == -1 ==> (r matches Err(
                LovelyResError::SSHError(m),
            ) && m@ == msg_not_found(session_id@)),
    {
        let probe = self.validate_channel_for_write(session_id, now_ms);
        match probe {
            Err(e) => Err(e),
            Ok(_) => Err(
                LovelyResError::SSHError(
                    "Channel write operation needs to be handled at a higher level".to_owned(),
                ),
            ),
        }
    }

    /// Moves the channel under `session_id` to `Closed`, releasing it;
    /// unknown ids are ignored.
    pub fn close_channel(&mut self, session_id: &str)
        requires
            old(self).well_formed(),
        ensures
            final(self).well_formed(),
            final(self).health_check_interval_ms == old(self).health_check_interval_ms,
            final(self).channel_timeout_ms == old(self).channel_timeout_ms,
            ({
                let idx = spec_index_of(old(self).registry(), session_id@);
                if idx == -1 {
                    final(self).registry() == old(self).registry()
                } else {
                    stepped_to_state(old(self).registry(), final(self).registry(), idx) && final(self).registry()[idx].state == ChannelState::Closed
                }
            }),
    {
        let found = self.find_index(session_id);
        match found {
            None => {},
            Some(i) => {
                let replacement = ManagedChannel {
                    session_id: self.channels[i].session_id.clone(),
                    state: ChannelState::Closed,
                    last_activity_ms: self.channels[i].last_activity_ms,
                    created_at_ms: self.channels[i].created_at_ms,
                    eof: self.channels[i].eof,
                };
                self.channels.set(i, replacement);
                proof {
                    lemma_same_ids_wf(old(self).registry(), self.channels@);
                }
            },
        }
    }

    /// The periodic sweep: every channel idle beyond the timeout is
    /// reclaimed — its record leaves the registry; fresh channels are
    /// left registered and unmodified.  Returns how many channels were
    /// reclaimed.
    pub fn cleanup_stale_channels(&mut self, now_ms: u64) -> (n: usize)
        requires
            old(self).well_formed(),
        ensures
            final(self).well_formed(),
            final(self).health_check_interval_ms == old(self).health_check_interval_ms,
            final(self).channel_timeout_ms == old(self).channel_timeout_ms,
            final(self).registry() == old(self).registry().filter(
                |c: ManagedChannel| !channel_stale(c, now_ms, old(self).channel_timeout_ms),
            ),
            n == old(self).registry().len() - final(self).registry().len(),
    {
        let ghost oldreg: Seq<ManagedChannel> = self.channels@;
        let ghost timeout: u64 = self.channel_timeout_ms;
        proof {
            assert(oldreg.len() == self.channels.len());
        }
        let mut n: usize = 0;
        let mut i: usize = 0;
        let ghost mut j: int = 0;
        while i < self.channels.len()
            invariant
                0 <= i <= self.channels@.len(),
                0 <= j <= oldreg.len(),
                oldreg.len() <= usize::MAX,
                n <= j,
                timeout == self.channel_timeout_ms,
                self.channel_timeout_ms == old(self).channel_timeout_ms,
                self.health_check_interval_ms == old(self).health_check_interval_ms,
                old(self).well_formed(),
                self.well_formed(),
                oldreg == old(self).registry(),
                self.channels@ =~= oldreg.take(j).filter(
                    |c: ManagedChannel| !channel_stale(c, now_ms, timeout),
                ) + oldreg.skip(j),
                i as int == oldreg.take(j).filter(
                    |c: ManagedChannel| !channel_stale(c, now_ms, timeout),
                ).len(),
                n as int == j - i as int,
            decreases self.channels@.len() - i,
        {
            proof {
                assert(j < oldreg.len());
                assert(self.channels@[i as int] == oldreg.skip(j)[0]);
                assert(oldreg.skip(j)[0] == oldreg[j]);
                reveal(Seq::filter);
                assert(oldreg.take(j + 1).drop_last() =~= oldreg.take(j));
                assert(oldreg.take(j + 1).last() == oldreg[j]);
            }
            if self.channels[i].is_stale(now_ms, self.channel_timeout_ms) {
                let ghost pre: Seq<ManagedChannel> = self.channels@;
                self.channels.remove(i);
                n = n + 1;
                proof {
                    j = j + 1;
                    assert(self.channels@ =~= oldreg.take(j).filter(
                        |c: ManagedChannel| !channel_stale(c, now_ms, timeout),
                    ) + oldreg.skip(j));
                    let cur = self.channels@;
                    assert forall|a: int, b: int| 0 <= a < b < cur.len() implies (
                    #[trigger] cur[a]).session_id@ != (#[trigger] cur[b]).session_id@ by {
                        let a0 = if a < i as int { a } else { a + 1 };
                        let b0 = if b < i as int { b } else { b + 1 };
                        assert(cur[a] == pre[a0]);
                        assert(cur[b] == pre[b0]);
                    }
                }
            } else {
                i = i + 1;
                proof {
                    j = j + 1;
                    assert(self.channels@ =~= oldreg.take(j).filter(
                        |c: ManagedChannel| !channel_stale(c, now_ms, timeout),
                    ) + oldreg.skip(j));
                }
            }
        }
        proof {
            assert(j == oldreg.len());
            assert(oldreg.take(j) =~= oldreg);
            assert(oldreg.skip(j) =~= Seq::<ManagedChannel>::empty());
            assert(self.channels@ =~= oldreg.filter(
                |c: ManagedChannel| !channel_stale(c, now_ms, timeout),
            ));
        }
        n
    }

    /// A snapshot of every channel: id, state and age in milliseconds.
    pub fn get_channel_stats(&self, now_ms: u64) -> (r: Vec<(String, ChannelState, u64)>)
        ensures
            r@.len() == self.registry().len(),
            forall|i: int|
                0 <= i < r@.len() ==> (#[trigger] r@[i]).0@ == self.registry()[i].session_id@
                    && r@[i].1 == self.registry()[i].state && r@[i].2 as int == age_of(
                    self.registry()[i],
                    now_ms,
                ),
    {
        let mut out: Vec<(String, ChannelState, u64)> = Vec::new();
        let mut i: usize = 0;
        while i < self.channels.len()
            invariant
                0 <= i <= self.channels@.len(),
                out@.len() == i as int,
                forall|j: int|
                    0 <= j < i as int ==> (#[trigger] out@[j]).0@
                        == self.channels@[j].session_id@ && out@[j].1 == self.channels@[j].state
                        && out@[j].2 as int == age_of(self.channels@[j], now_ms),
            decreases self.channels@.len() - i,
        {
            let c = &self.channels[i];
            let age: u64 = if now_ms >= c.created_at_ms {
                now_ms - c.created_at_ms
            } else {
                0
            };
            out.push((c.session_id.clone(), c.get_state(), age));
            i = i + 1;
        }
        out
    }
}

/// A channel idle beyond the timeout is due for reclamation.
pub open spec fn channel_stale(c: ManagedChannel, now_ms: u64, timeout_ms: u64) -> bool {
    c.spec_idle(now_ms) > timeout_ms
}

/// Milliseconds since the channel was created, zero if the clock ran
/// backwards.
pub open spec fn age_of(c: ManagedChannel, now_ms: u64) -> int {
    if now_ms >= c.created_at_ms {
        now_ms - c.created_at_ms
    } else {
        0
    }
}

/// Two records that differ at most in their state field.
pub open spec fn same_but_state(a: ManagedChannel, b: ManagedChannel) -> bool {
    &&& a.session_id == b.session_id
    &&& a.last_activity_ms == b.last_activity_ms
    &&& a.created_at_ms == b.created_at_ms
    &&& a.eof == b.eof
}

/// One record's state changed; everything else, everywhere, is as it was.
pub open spec fn stepped_to_state(
    before: Seq<ManagedChannel>,
    after: Seq<ManagedChannel>,
    idx: int,
) -> bool {
    &&& after.len() == before.len()
    &&& forall|i: int| 0 <= i < before.len() && i != idx ==> after[i] == before[i]
    &&& same_but_state(before[idx], after[idx])
}

/// Registries with the same ids position for position agree on every
/// lookup.
pub proof fn lemma_index_same_ids(a: Seq<ManagedChannel>, b: Seq<ManagedChannel>, id: Seq<char>)
    requires
        a.len() == b.len(),
        forall|i: int| 0 <= i < a.len() ==> (#[trigger] a[i]).session_id@ == b[i].session_id@,
    ensures
        spec_index_of(a, id) == spec_index_of(b, id),
    decreases a.len(),
{
    if a.len() == 0 {
    } else if a[0].session_id@ == id {
    } else {
        assert(forall|i: int|
            0 <= i < a.drop_first().len() ==> (#[trigger] a.drop_first()[i]).session_id@
                == b.drop_first()[i].session_id@);
        lemma_index_same_ids(a.drop_first(), b.drop_first(), id);
    }
}

/// Registries that pair up id-for-id are unique together.
proof fn lemma_same_ids_wf(before: Seq<ManagedChannel>, after: Seq<ManagedChannel>)
    requires
        before.len() == after.len(),
        forall|i: int, j: int|
            0 <= i < j < before.len() ==> (#[trigger] before[i]).session_id@ != (
            #[trigger] before[j]).session_id@,
        forall|i: int| 0 <= i < before.len() ==> (#[trigger] after[i]).session_id@ == before[i].session_id@,
    ensures
        forall|i: int, j: int|
            0 <= i < j < after.len() ==> (#[trigger] after[i]).session_id@ != (
            #[trigger] after[j]).session_id@,
{
}

/// The error text for a channel that was never registered.
pub open spec fn msg_not_found(id: Seq<char>) -> Seq<char> {
    "Channel "@ + id + " not found"@
}

/// The error text for a channel not in the `Active` state.
pub open spec fn msg_not_writable(id: Seq<char>) -> Seq<char> {
    "Channel "@ + id + " is not writable"@
}

/// The error text for a channel idle beyond the timeout.
pub open spec fn msg_timed_out(id: Seq<char>) -> Seq<char> {
    "Channel "@ + id + " has timed out"@
}

/// The error text for a channel past end-of-stream.
pub open spec fn msg_eof(id: Seq<char>) -> Seq<char> {
    "Channel "@ + id + " has reached EOF"@
}

/// Passive health monitor: when switched on, its periodic sweep reclaims
/// idle channels through the registry; it never touches control flow.
#[derive(Debug)]
pub struct SSHHealthMonitor {
    pub monitoring: bool,
}

impl SSHHealthMonitor {
    /// A monitor that is not yet watching.
    pub fn new() -> (r: Self)
        ensures
            !r.monitoring,
    {
        Self { monitoring: false }
    }

    /// Switches monitoring on.
    pub fn start_monitoring(&mut self)
        ensures
            final(self).monitoring,
    {
        self.monitoring = true;
    }

    /// Switches monitoring off.
    pub fn stop_monitoring(&mut self)
        ensures
            !final(self).monitoring,
    {
        self.monitoring = false;
    }

    /// One monitoring round: reclaims stale channels while switched on.
    /// The caller invokes this on its health-check cadence.
    pub fn sweep(&self, mgr: &mut SSHChannelManager, now_ms: u64) -> (n: usize)
        requires
            old(mgr).well_formed(),
        ensures
            final(mgr).well_formed(),
            !self.monitoring ==> *final(mgr) == *old(mgr) && n == 0,
            self.monitoring ==> (final(mgr).channel_timeout_ms == old(mgr).channel_timeout_ms
                && final(mgr).health_check_interval_ms == old(mgr).health_check_interval_ms
                && final(mgr).registry() == old(mgr).registry().filter(
                |c: ManagedChannel| !channel_stale(c, now_ms, old(mgr).channel_timeout_ms),
            ) && n == old(mgr).registry().len() - final(mgr).registry().len()),
    {
        if self.monitoring {
            mgr.cleanup_stale_channels(now_ms)
        } else {
            0
        }
    }
}

} // verus!
