//! Passive health and metrics monitor: a bounded event log, running
//! counters and advisory warnings.
//!
//! The monitor only observes: nothing here feeds back into control flow.

use vstd::prelude::*;

verus! {

/// A typed event worth recording.
#[derive(Debug, Clone)]
pub enum SSHDebugEvent {
    ConnectionEstablished { host: String, port: u16, duration_ms: u64 },
    ConnectionFailed { host: String, port: u16, error: String },
    ChannelCreated { session_id: String, channel_type: String },
    ChannelClosed { session_id: String, reason: String },
    InputSent { session_id: String, bytes: usize, priority: String },
    InputFailed { session_id: String, error: String, retry_count: u32 },
    FlowControlActivated { session_id: String, state: String },
    FlowControlDeactivated { session_id: String },
    WindowAdjusted { session_id: String, new_size: u32 },
    KeepAliveSuccess { session_id: String },
    KeepAliveFailed { session_id: String, error: String },
    ThreadCreated { thread_id: String, thread_type: String },
    ThreadStopped { thread_id: String, duration_ms: u64 },
    BufferOverflow { session_id: String, buffer_size: usize },
    RetryExhausted { session_id: String, max_retries: u32 },
}

/// Running totals derived from the event stream.
#[derive(Debug, Clone, Copy)]
pub struct SSHMetrics {
    pub total_connections: u64,
    pub active_connections: u64,
    pub failed_connections: u64,
    pub total_input_bytes: u64,
    pub failed_input_bytes: u64,
    /// Mean observed latency, in whole milliseconds.
    pub average_latency_ms: u64,
    pub flow_control_activations: u64,
    pub buffer_overflows: u64,
    pub retry_count: u64,
    pub keepalive_failures: u64,
}

impl Default for SSHMetrics {
    /// Every counter at zero.
    fn default() -> (r: Self)
        ensures
            r.total_connections == 0,
            r.active_connections == 0,
            r.failed_connections == 0,
            r.total_input_bytes == 0,
            r.failed_input_bytes == 0,
            r.average_latency_ms == 0,
            r.flow_control_activations == 0,
            r.buffer_overflows == 0,
            r.retry_count == 0,
            r.keepalive_failures == 0,
    {
        SSHMetrics {
            total_connections: 0,
            active_connections: 0,
            failed_connections: 0,
            total_input_bytes: 0,
            failed_input_bytes: 0,
            average_latency_ms: 0,
            flow_control_activations: 0,
            buffer_overflows: 0,
            retry_count: 0,
            keepalive_failures: 0,
        }
    }
}

/// Per-session accumulated figures.
#[derive(Debug, Clone)]
pub struct SessionStats {
    pub created_at_ms: u64,
    pub last_activity_ms: u64,
    pub input_bytes: u64,
    pub output_bytes: u64,
    pub error_count: u32,
    pub flow_control_count: u32,
    pub retry_count: u32,
}

/// An advisory finding derived from the counters; never acted on
/// automatically.
#[derive(Debug, Clone, PartialEq, Eq)]
pub enum HealthWarning {
    /// More than a fifth of all connection attempts failed.
    HighConnectionFailureRate,
    /// Flow control engaged more than ten times.
    FrequentFlowControl,
    /// At least one buffer overflow was recorded.
    BufferOverflowsSeen,
    /// The named session has been idle over five minutes.
    StaleSession(String),
}

/// Bounded event log plus counters; safe to poll from anywhere since it
/// never mutates control state.
#[derive(Debug)]
pub struct SSHDebugger {
    /// The recorded events, oldest first, together with their times.
    pub events: Vec<(u64, SSHDebugEvent)>,
    pub metrics: SSHMetrics,
    /// Per-session figures, keyed by session id.
    pub session_stats: Vec<(String, SessionStats)>,
    pub max_events: usize,
    pub debug_enabled: bool,
}

/// How one event advances the running totals.
pub open spec fn spec_metrics_step(m: SSHMetrics, e: SSHDebugEvent) -> SSHMetrics {
    match e {
        SSHDebugEvent::ConnectionEstablished { .. } => SSHMetrics {
            total_connections: sat_add64(m.total_connections, 1),
            active_connections: sat_add64(m.active_connections, 1),
            ..m
        },
        SSHDebugEvent::ConnectionFailed { .. } => SSHMetrics {
            failed_connections: sat_add64(m.failed_connections, 1),
            ..m
        },
        SSHDebugEvent::InputSent { bytes, .. } => SSHMetrics {
            total_input_bytes: sat_add64(m.total_input_bytes, bytes as u64),
            ..m
        },
        SSHDebugEvent::InputFailed { .. } => SSHMetrics {
            retry_count: sat_add64(m.retry_count, 1),
            ..m
        },
        SSHDebugEvent::FlowControlActivated { .. } => SSHMetrics {
            flow_control_activations: sat_add64(m.flow_control_activations, 1),
            ..m
        },
        SSHDebugEvent::BufferOverflow { .. } => SSHMetrics {
            buffer_overflows: sat_add64(m.buffer_overflows, 1),
            ..m
        },
        SSHDebugEvent::KeepAliveFailed { .. } => SSHMetrics {
            keepalive_failures: sat_add64(m.keepalive_failures, 1),
            ..m
        },
        _ => m,
    }
}

/// Saturating add on a counter.
pub open spec fn sat_add64(a: u64, b: u64) -> u64 {
    if a + b <= u64::MAX {
        (a + b) as u64
    } else {
        u64::MAX
    }
}

/// Executable form of [`sat_add64`].
fn sat_add64_exec(a: u64, b: u64) -> (r: u64)
    ensures
        r == sat_add64(a, b),
{
    if b <= u64::MAX - a {
        a + b
    } else {
        u64::MAX
    }
}

impl SSHDebugger {
    /// A monitor keeping the last thousand events, enabled.
    pub fn new() -> (r: Self)
        ensures
            r.events@.len() == 0,
            r.session_stats@.len() == 0,
            r.max_events == 1000,
            r.debug_enabled,
            r.metrics.total_connections == 0,
            r.metrics.failed_connections == 0,
            r.metrics.buffer_overflows == 0,
            r.metrics.flow_control_activations == 0,
    {
        SSHDebugger {
            events: Vec::new(),
            metrics: SSHMetrics::default(),
            session_stats: Vec::new(),
            max_events: 1000,
            debug_enabled: true,
        }
    }

    /// Switches event recording on or off.
    pub fn set_debug_enabled(&mut self, enabled: bool)
        ensures
            final(self).debug_enabled == enabled,
            final(self).events == old(self).events,
            final(self).metrics == old(self).metrics,
            final(self).session_stats == old(self).session_stats,
            final(self).max_events == old(self).max_events,
    {
        self.debug_enabled = enabled;
    }

    /// Records one event: it joins the bounded log (the oldest entry
    /// leaves once the cap is reached) and advances the counters.  A
    /// disabled monitor records nothing.
    pub fn log_event(&mut self, event: SSHDebugEvent, now_ms: u64)
        requires
            old(self).max_events >= 1,
        ensures
            final(self).max_events == old(self).max_events,
            final(self).debug_enabled == old(self).debug_enabled,
            !old(self).debug_enabled ==> *final(self) == *old(self),
            old(self).debug_enabled ==> ({
                &&& final(self).metrics == spec_metrics_step(old(self).metrics, event)
                &&& final(self).events@ == if old(self).events@.len() < old(self).max_events {
                    old(self).events@.push((now_ms, event))
                } else {
                    old(self).events@.skip(
                        old(self).events@.len() - (old(self).max_events - 1),
                    ).push((now_ms, event))
                }
                &&& final(self).events@.len() <= old(self).max_events
            }),
    {
        if !self.debug_enabled {
            return ;
        }
        if self.events.len() >= self.max_events {
            // keep only the newest entries to stay within the cap
            while self.events.len() >= self.max_events
                invariant
                    self.max_events >= 1,
                    self.max_events == old(self).max_events,
                    self.events@.len() >= self.max_events - 1,
                    self.events@.len() <= old(self).events@.len(),
                    self.events@ == old(self).events@.skip(
                        old(self).events@.len() - self.events@.len(),
                    ),
                    self.metrics == old(self).metrics,
                    self.session_stats == old(self).session_stats,
                    self.debug_enabled == old(self).debug_enabled,
                decreases self.events@.len(),
            {
                let ghost pre: Seq<(u64, SSHDebugEvent)> = self.events@;
                let ghost d: int = old(self).events@.len() - pre.len();
                proof {
                    assert(d >= 0);
                    assert(pre.len() >= 1);
                }
                self.events.remove(0);
                proof {
                    assert(self.events@ =~= pre.drop_first());
                    assert forall|k: int| 0 <= k < pre.drop_first().len() implies pre.drop_first()[k]
                        == old(self).events@.skip(d + 1)[k] by {
                        assert(pre.drop_first()[k] == pre[k + 1]);
                        assert(pre[k + 1] == old(self).events@.skip(d)[k + 1]);
                        assert(old(self).events@.skip(d)[k + 1] == old(self).events@[d + k + 1]);
                    }
                    assert(pre.drop_first() =~= old(self).events@.skip(d + 1));
                }
            }
        }
        let ghost emetrics: SSHMetrics = self.metrics;
        let stepped = Self::step_metrics(&self.metrics, &event);
        self.metrics = stepped;
        self.events.push((now_ms, event));
        proof {
            if old(self).events@.len() >= old(self).max_events {
                assert(self.events@ =~= old(self).events@.skip(
                    old(self).events@.len() - (old(self).max_events - 1),
                ).push(self.events@.last()));
            }
        }
    }

    /// Applies one event to the counters.
    fn step_metrics(m: &SSHMetrics, e: &SSHDebugEvent) -> (r: SSHMetrics)
        ensures
            r == spec_metrics_step(*m, *e),
    {
        let mut out = m.clone();
        match e {
            SSHDebugEvent::ConnectionEstablished { .. } => {
                out.total_connections = sat_add64_exec(out.total_connections, 1);
                out.active_connections = sat_add64_exec(out.active_connections, 1);
            },
            SSHDebugEvent::ConnectionFailed { .. } => {
                out.failed_connections = sat_add64_exec(out.failed_connections, 1);
            },
            SSHDebugEvent::InputSent { bytes, .. } => {
                out.total_input_bytes = sat_add64_exec(out.total_input_bytes, *bytes as u64);
            },
            SSHDebugEvent::InputFailed { .. } => {
                out.retry_count = sat_add64_exec(out.retry_count, 1);
            },
            SSHDebugEvent::FlowControlActivated { .. } => {
                out.flow_control_activations = sat_add64_exec(out.flow_control_activations, 1);
            },
            SSHDebugEvent::BufferOverflow { .. } => {
                out.buffer_overflows = sat_add64_exec(out.buffer_overflows, 1);
            },
            SSHDebugEvent::KeepAliveFailed { .. } => {
                out.keepalive_failures = sat_add64_exec(out.keepalive_failures, 1);
            },
            _ => {},
        }
        out
    }

    /// A copy of the running totals.
    pub fn get_metrics(&self) -> (r: SSHMetrics)
        ensures
            r == self.metrics,
    {
        self.metrics.clone()
    }

    /// The newest `limit` events, oldest of them first.
    pub fn get_recent_events(&self, limit: usize) -> (r: Vec<(u64, SSHDebugEvent)>)
        ensures
            r@ == if self.events@.len() > limit {
                self.events@.skip(self.events@.len() - limit)
            } else {
                self.events@
            },
    {
        let start: usize = if self.events.len() > limit {
            self.events.len() - limit
        } else {
            0
        };
        let mut out: Vec<(u64, SSHDebugEvent)> = Vec::new();
        let mut i: usize = start;
        while i < self.events.len()
            invariant
                start <= i <= self.events@.len(),
                out@ == self.events@.subrange(start as int, i as int),
            decreases self.events@.len() - i,
        {
            let (t, e) = &self.events[i];
            out.push((*t, e.clone_event()));
            proof {
                assert(self.events@.subrange(start as int, i + 1) =~= self.events@.subrange(
                    start as int,
                    i as int,
                ).push(self.events@[i as int]));
            }
            i = i + 1;
        }
        proof {
            if self.events@.len() > limit {
                assert(self.events@.subrange(start as int, self.events@.len() as int)
                    =~= self.events@.skip(self.events@.len() - limit));
            } else {
                assert(self.events@.subrange(start as int, self.events@.len() as int)
                    =~= self.events@);
            }
        }
        out
    }

    /// Forgets every event, figure and counter.
    pub fn clear(&mut self)
        ensures
            final(self).events@.len() == 0,
            final(self).session_stats@.len() == 0,
            final(self).metrics.total_connections == 0,
            final(self).metrics.failed_connections == 0,
            final(self).metrics.buffer_overflows == 0,
            final(self).max_events == old(self).max_events,
            final(self).debug_enabled == old(self).debug_enabled,
    {
        self.events.clear();
        self.session_stats.clear();
        self.metrics = SSHMetrics::default();
    }

    /// Advisory warnings derived from the counters alone: a failure rate
    /// over a fifth, frequent flow control, any buffer overflow, and one
    /// warning naming each session idle over five minutes.
    pub fn check_health(&self, now_ms: u64) -> (r: Vec<HealthWarning>)
        ensures
            ({
                let base = spec_base_health_warnings(self.metrics);
                let stale = self.session_stats@.filter(
                    |p: (String, SessionStats)| stats_idle(p.1, now_ms) > 300000,
                );
                &&& r@.len() == base.len() + stale.len()
                &&& r@.subrange(0, base.len() as int) == base
                &&& forall|k: int|
                    0 <= k < stale.len() ==> ((#[trigger] r@[base.len() + k])
                        matches HealthWarning::StaleSession(id) && id@ == stale[k].0@)
            }),
    {
        let mut out: Vec<HealthWarning> = Vec::new();
        let high_rate: bool = if self.metrics.total_connections > 0
            && self.metrics.failed_connections > u64::MAX / 5 {
            // a failure count this large always exceeds a fifth
            proof {
                assert(self.metrics.failed_connections * 5 > self.metrics.total_connections);
            }
            true
        } else {
            self.metrics.total_connections > 0 && self.metrics.failed_connections * 5
                > self.metrics.total_connections
        };
        if high_rate {
            out.push(HealthWarning::HighConnectionFailureRate);
        }
        if self.metrics.flow_control_activations > 10 {
            out.push(HealthWarning::FrequentFlowControl);
        }
        if self.metrics.buffer_overflows > 0 {
            out.push(HealthWarning::BufferOverflowsSeen);
        }
        let ghost base: Seq<HealthWarning> = spec_base_health_warnings(self.metrics);
        proof {
            assert(out@ =~= base);
        }
        let ghost stats: Seq<(String, SessionStats)> = self.session_stats@;
        let mut i: usize = 0;
        while i < self.session_stats.len()
            invariant
                0 <= i <= stats.len(),
                self.session_stats@ == stats,
                base == spec_base_health_warnings(self.metrics),
                out@.len() == base.len() + stats.take(i as int).filter(
                    |p: (String, SessionStats)| stats_idle(p.1, now_ms) > 300000,
                ).len(),
                out@.subrange(0, base.len() as int) == base,
                forall|k: int|
                    0 <= k < stats.take(i as int).filter(
                        |p: (String, SessionStats)| stats_idle(p.1, now_ms) > 300000,
                    ).len() ==> ((#[trigger] out@[base.len() + k])
                        matches HealthWarning::StaleSession(id) && id@ == stats.take(
                        i as int,
                    ).filter(|p: (String, SessionStats)| stats_idle(p.1, now_ms) > 300000)[k].0@),
            decreases stats.len() - i,
        {
            proof {
                reveal(Seq::filter);
                assert(stats.take(i as int + 1).drop_last() =~= stats.take(i as int));
                assert(stats.take(i as int + 1).last() == stats[i as int]);
            }
            let idle: u64 = if now_ms >= self.session_stats[i].1.last_activity_ms {
                now_ms - self.session_stats[i].1.last_activity_ms
            } else {
                0
            };
            if idle > 300000 {
                let ghost before: Seq<HealthWarning> = out@;
                out.push(HealthWarning::StaleSession(self.session_stats[i].0.clone()));
                proof {
                    assert(out@.subrange(0, base.len() as int) =~= before.subrange(
                        0,
                        base.len() as int,
                    ));
                }
            }
            i = i + 1;
        }
        proof {
            assert(stats.take(stats.len() as int) =~= stats);
        }
        out
    }
}

/// The counter-derived warnings, in a fixed order.
pub open spec fn spec_base_health_warnings(m: SSHMetrics) -> Seq<HealthWarning> {
    (if m.total_connections > 0 && m.failed_connections * 5 > m.total_connections {
        seq![HealthWarning::HighConnectionFailureRate]
    } else {
        Seq::<HealthWarning>::empty()
    }) + (if m.flow_control_activations > 10 {
        seq![HealthWarning::FrequentFlowControl]
    } else {
        Seq::<HealthWarning>::empty()
    }) + (if m.buffer_overflows > 0 {
        seq![HealthWarning::BufferOverflowsSeen]
    } else {
        Seq::<HealthWarning>::empty()
    })
}

/// Milliseconds a session has been idle, zero if the clock ran backwards.
pub open spec fn stats_idle(s: SessionStats, now_ms: u64) -> int {
    if now_ms >= s.last_activity_ms {
        now_ms - s.last_activity_ms
    } else {
        0
    }
}

impl SSHDebugEvent {
    /// A field-for-field copy.
    pub fn clone_event(&self) -> (r: Self)
        ensures
            r == *self,
    {
        match self {
            SSHDebugEvent::ConnectionEstablished { host, port, duration_ms } => SSHDebugEvent::ConnectionEstablished {
                host: host.clone(),
                port: *port,
                duration_ms: *duration_ms,
            },
            SSHDebugEvent::ConnectionFailed { host, port, error } => SSHDebugEvent::ConnectionFailed {
                host: host.clone(),
                port: *port,
                error: error.clone(),
            },
            SSHDebugEvent::ChannelCreated { session_id, channel_type } => SSHDebugEvent::ChannelCreated {
                session_id: session_id.clone(),
                channel_type: channel_type.clone(),
            },
            SSHDebugEvent::ChannelClosed { session_id, reason } => SSHDebugEvent::ChannelClosed {
                session_id: session_id.clone(),
                reason: reason.clone(),
            },
            SSHDebugEvent::InputSent { session_id, bytes, priority } => SSHDebugEvent::InputSent {
                session_id: session_id.clone(),
                bytes: *bytes,
                priority: priority.clone(),
            },
            SSHDebugEvent::InputFailed { session_id, error, retry_count } => SSHDebugEvent::InputFailed {
                session_id: session_id.clone(),
                error: error.clone(),
                retry_count: *retry_count,
            },
            SSHDebugEvent::FlowControlActivated { session_id, state } => SSHDebugEvent::FlowControlActivated {
                session_id: session_id.clone(),
                state: state.clone(),
            },
            SSHDebugEvent::FlowControlDeactivated { session_id } => SSHDebugEvent::FlowControlDeactivated {
                session_id: session_id.clone(),
            },
            SSHDebugEvent::WindowAdjusted { session_id, new_size } => SSHDebugEvent::WindowAdjusted {
                session_id: session_id.clone(),
                new_size: *new_size,
            },
            SSHDebugEvent::KeepAliveSuccess { session_id } => SSHDebugEvent::KeepAliveSuccess {
                session_id: session_id.clone(),
            },
            SSHDebugEvent::KeepAliveFailed { session_id, error } => SSHDebugEvent::KeepAliveFailed {
                session_id: session_id.clone(),
                error: error.clone(),
            },
            SSHDebugEvent::ThreadCreated { thread_id, thread_type } => SSHDebugEvent::ThreadCreated {
                thread_id: thread_id.clone(),
                thread_type: thread_type.clone(),
            },
            SSHDebugEvent::ThreadStopped { thread_id, duration_ms } => SSHDebugEvent::ThreadStopped {
                thread_id: thread_id.clone(),
                duration_ms: *duration_ms,
            },
            SSHDebugEvent::BufferOverflow { session_id, buffer_size } => SSHDebugEvent::BufferOverflow {
                session_id: session_id.clone(),
                buffer_size: *buffer_size,
            },
            SSHDebugEvent::RetryExhausted { session_id, max_retries } => SSHDebugEvent::RetryExhausted {
                session_id: session_id.clone(),
                max_retries: *max_retries,
            },
        }
    }
}

} // verus!
