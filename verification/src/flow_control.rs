//! Flow-control engine: prioritised buffering of terminal input and
//! window-based backpressure for one transport/channel pair.
//!
//! The controller keeps pending input sorted by urgency (stable within one
//! priority class), never lets the bytes in flight exceed the window the
//! peer advertised, and reacts to write outcomes by moving between the
//! `Normal`, `Throttled`, `Blocked` and `Draining` states.  All clock
//! readings enter as plain millisecond values, so every transition is
//! deterministic and verified.

use vstd::prelude::*;

use crate::errors::{LovelyResError, LovelyResResult};

verus! {

/// Flow-control state of one transport/channel pair.
#[derive(Debug, Clone, Copy, PartialEq, Eq, Structural)]
pub enum FlowControlState {
    Normal,
    Throttled,
    Blocked,
    Draining,
}

/// Urgency class of one piece of buffered terminal input.
///
/// A lower rank means higher urgency: control keys go first, bulk pastes
/// last.
#[derive(Debug, Clone, Copy, PartialEq, Eq, Structural)]
pub enum InputPriority {
    Control,
    Navigation,
    Normal,
    Bulk,
}

impl InputPriority {
    /// Numeric urgency; lower is more urgent.
    pub open spec fn rank(self) -> int {
        match self {
            InputPriority::Control => 0,
            InputPriority::Navigation => 1,
            InputPriority::Normal => 2,
            InputPriority::Bulk => 3,
        }
    }

    /// Executable form of [`Self::rank`].
    pub fn rank_value(&self) -> (r: u8)
        ensures
            r as int == self.rank(),
    {
        match self {
            InputPriority::Control => 0,
            InputPriority::Navigation => 1,
            InputPriority::Normal => 2,
            InputPriority::Bulk => 3,
        }
    }
}

/// Control and navigation input must never be evicted to make room.
pub open spec fn is_urgent(e: BufferedInput) -> bool {
    e.priority.rank() <= 1
}

/// One queued piece of terminal input together with its metadata.
#[derive(Debug, Clone)]
pub struct BufferedInput {
    pub data: Vec<u8>,
    /// Enqueue time, in milliseconds of the caller's clock.
    pub timestamp: u64,
    pub priority: InputPriority,
    pub retry_count: u32,
}

impl BufferedInput {
    /// A fresh entry carrying `data`, stamped with the caller's clock.
    pub fn new(data: Vec<u8>, priority: InputPriority, now_ms: u64) -> (r: Self)
        ensures
            r.data == data,
            r.timestamp == now_ms,
            r.priority == priority,
            r.retry_count == 0,
    {
        Self { data, timestamp: now_ms, priority, retry_count: 0 }
    }

    /// Milliseconds since this entry was queued, zero if the clock ran
    /// backwards.
    pub open spec fn spec_age(self, now_ms: u64) -> int {
        if now_ms >= self.timestamp {
            now_ms - self.timestamp
        } else {
            0
        }
    }

    /// Whether the entry has waited longer than `timeout_ms`.
    pub fn is_stale(&self, now_ms: u64, timeout_ms: u64) -> (r: bool)
        ensures
            r == (self.spec_age(now_ms) > timeout_ms),
    {
        let age: u64 = if now_ms >= self.timestamp {
            now_ms - self.timestamp
        } else {
            0
        };
        age > timeout_ms
    }

    /// Counts one more failed delivery attempt; saturates at the maximum.
    pub fn increment_retry(&mut self)
        ensures
            final(self).retry_count == if old(self).retry_count < u32::MAX {
                old(self).retry_count + 1
            } else {
                u32::MAX as int
            },
            final(self).data == old(self).data,
            final(self).timestamp == old(self).timestamp,
            final(self).priority == old(self).priority,
    {
        if self.retry_count < u32::MAX {
            self.retry_count = self.retry_count + 1;
        }
    }
}

/// How a channel endpoint answers the next write attempt.
#[derive(Debug, Clone, Copy, PartialEq, Eq, Structural)]
pub enum WriteBehavior {
    /// The write is taken in full.
    Accept,
    /// The endpoint cannot take data right now; try again later.
    WouldBlock,
    /// The peer is still draining earlier output; back off before retrying.
    DrainingSignal,
    /// The connection is gone; every queued byte is lost.
    BrokenPipe,
}

/// In-memory channel endpoint the controller writes into.
///
/// `written` records every byte accepted, in order.  `script` holds the
/// answers the endpoint will give to the next write attempts, front first;
/// once the script is exhausted every write is accepted.  The surrounding
/// application drains `written` into the real channel and refills the
/// script from real write outcomes; tests script failures directly.
#[derive(Debug, Clone)]
pub struct ChannelSink {
    pub written: Vec<u8>,
    pub script: Vec<WriteBehavior>,
}

impl ChannelSink {
    /// An endpoint that accepts everything.
    pub fn new() -> (r: Self)
        ensures
            r.written@ == Seq::<u8>::empty(),
            r.script@ == Seq::<WriteBehavior>::empty(),
    {
        Self { written: Vec::new(), script: Vec::new() }
    }

    /// An endpoint that answers write attempts as `script` dictates.
    pub fn with_script(script: Vec<WriteBehavior>) -> (r: Self)
        ensures
            r.written@ == Seq::<u8>::empty(),
            r.script == script,
    {
        Self { written: Vec::new(), script }
    }

    /// The behaviour governing the next write attempt.
    pub open spec fn spec_next_behavior(self) -> WriteBehavior {
        if self.script@.len() == 0 {
            WriteBehavior::Accept
        } else {
            self.script@[0]
        }
    }

    /// Consumes and returns the next scripted behaviour.
    fn take_behavior(&mut self) -> (b: WriteBehavior)
        ensures
            b == old(self).spec_next_behavior(),
            final(self).written == old(self).written,
            final(self).script@ == if old(self).script@.len() == 0 {
                Seq::<WriteBehavior>::empty()
            } else {
                old(self).script@.drop_first()
            },
    {
        if self.script.len() == 0 {
            WriteBehavior::Accept
        } else {
            self.script.remove(0)
        }
    }

    /// Appends accepted bytes to the record.
    fn record(&mut self, data: &Vec<u8>)
        ensures
            final(self).written@ == old(self).written@ + data@,
            final(self).script == old(self).script,
    {
        let mut i: usize = 0;
        while i < data.len()
            invariant
                i <= data.len(),
                self.written@ == old(self).written@ + data@.take(i as int),
                self.script == old(self).script,
            decreases data.len() - i,
        {
            self.written.push(data[i]);
            i = i + 1;
            proof {
                assert(data@.take(i as int) == data@.take(i - 1).push(data@[i - 1]));
            }
        }
        proof {
            assert(data@.take(data@.len() as int) == data@);
        }
    }
}

/// A buffer is kept sorted by urgency: most urgent first, stable within a
/// class.
pub open spec fn rank_sorted(s: Seq<BufferedInput>) -> bool {
    forall|i: int, j: int|
        0 <= i && i <= j && j < s.len() ==> #[trigger] s[i].priority.rank()
            <= #[trigger] s[j].priority.rank()
}

/// `s` with up to `k` entries of rank `Normal` or below removed, earliest
/// first; urgent entries are never touched.
pub open spec fn drop_nonurgent(s: Seq<BufferedInput>, k: nat) -> Seq<BufferedInput>
    decreases s.len(),
{
    if s.len() == 0 {
        s
    } else if is_urgent(s[0]) {
        seq![s[0]] + drop_nonurgent(s.drop_first(), k)
    } else if k > 0 {
        drop_nonurgent(s.drop_first(), (k - 1) as nat)
    } else {
        s
    }
}

/// The entries of `s` that must survive eviction.
pub open spec fn urgent_entries(s: Seq<BufferedInput>) -> Seq<BufferedInput> {
    s.filter(|e: BufferedInput| is_urgent(e))
}

/// The entries of `s` that eviction may remove.
pub open spec fn nonurgent_count(s: Seq<BufferedInput>) -> int {
    s.filter(|e: BufferedInput| !is_urgent(e)).len() as int
}

/// Eviction removes exactly the earliest evictable entries: the urgent
/// entries survive unchanged, and the length drops by as many entries as
/// could be found, never more than asked.
#[verifier::rlimit(60)]
pub proof fn lemma_drop_nonurgent(s: Seq<BufferedInput>, k: nat)
    ensures
        urgent_entries(drop_nonurgent(s, k)) == urgent_entries(s),
        drop_nonurgent(s, k).len() == s.len() - (if k <= nonurgent_count(s) {
            k as int
        } else {
            nonurgent_count(s)
        }),
        rank_sorted(s) ==> rank_sorted(drop_nonurgent(s, k)),
        k >= nonurgent_count(s) ==> drop_nonurgent(s, k) == urgent_entries(s),
    decreases s.len(),
{
    reveal(Seq::filter);
    if s.len() == 0 {
        assert(urgent_entries(s) =~= Seq::<BufferedInput>::empty());
        assert(urgent_entries(drop_nonurgent(s, k)) =~= urgent_entries(s));
    } else {
        let rest = s.drop_first();
        assert(s == seq![s[0]] + rest);
        lemma_filter_head(s, |e: BufferedInput| is_urgent(e));
        lemma_filter_head(s, |e: BufferedInput| !is_urgent(e));
        if is_urgent(s[0]) {
            lemma_drop_nonurgent(rest, k);
            let d = drop_nonurgent(rest, k);
            lemma_filter_head(seq![s[0]] + d, |e: BufferedInput| is_urgent(e));
            lemma_filter_head(seq![s[0]] + d, |e: BufferedInput| !is_urgent(e));
            assert((seq![s[0]] + d).drop_first() =~= d);
            assert(urgent_entries(drop_nonurgent(s, k)) =~= urgent_entries(s));
            if rank_sorted(s) {
                lemma_sorted_drop(s, k);
            }
            if k >= nonurgent_count(s) {
                assert(drop_nonurgent(s, k) =~= urgent_entries(s));
            }
        } else if k > 0 {
            lemma_drop_nonurgent(rest, (k - 1) as nat);
            assert(urgent_entries(drop_nonurgent(s, k)) =~= urgent_entries(s));
            if rank_sorted(s) {
                lemma_sorted_drop(s, k);
            }
            if k >= nonurgent_count(s) {
                assert(drop_nonurgent(s, k) =~= urgent_entries(s));
            }
        } else {
        }
    }
}

/// Filtering a nonempty sequence filters its head and its tail.
proof fn lemma_filter_head(s: Seq<BufferedInput>, p: spec_fn(BufferedInput) -> bool)
    requires
        s.len() > 0,
    ensures
        s.filter(p) == if p(s[0]) {
            seq![s[0]] + s.drop_first().filter(p)
        } else {
            s.drop_first().filter(p)
        },
    decreases s.len(),
{
    reveal(Seq::filter);
    if s.len() == 1 {
        assert(s.drop_last() =~= Seq::<BufferedInput>::empty());
        assert(s.drop_first() =~= Seq::<BufferedInput>::empty());
        if p(s[0]) {
            assert(s.filter(p) =~= seq![s[0]] + s.drop_first().filter(p));
        }
    } else {
        let butlast = s.drop_last();
        lemma_filter_head(butlast, p);
        assert(butlast.len() > 0);
        assert(butlast[0] == s[0]);
        assert(butlast.drop_first() =~= s.drop_first().drop_last());
        assert(s.drop_first().len() > 0);
        assert(s.drop_first().last() == s.last());
        // filter over s peels the last element; reassemble around the head.
        if p(s.last()) {
            assert(s.filter(p) == butlast.filter(p).push(s.last()));
            if p(s[0]) {
                assert(s.filter(p) =~= seq![s[0]] + s.drop_first().filter(p)) by {
                    assert(s.drop_first().filter(p) == s.drop_first().drop_last().filter(
                        p,
                    ).push(s.last()));
                }
            } else {
                assert(s.filter(p) =~= s.drop_first().filter(p)) by {
                    assert(s.drop_first().filter(p) == s.drop_first().drop_last().filter(
                        p,
                    ).push(s.last()));
                }
            }
        } else {
            assert(s.filter(p) == butlast.filter(p));
            assert(s.drop_first().filter(p) == s.drop_first().drop_last().filter(p));
            if p(s[0]) {
                assert(s.filter(p) =~= seq![s[0]] + s.drop_first().filter(p));
            } else {
                assert(s.filter(p) =~= s.drop_first().filter(p));
            }
        }
    }
}

/// Removing evictable entries keeps the remaining buffer sorted.
proof fn lemma_sorted_drop(s: Seq<BufferedInput>, k: nat)
    requires
        rank_sorted(s),
        s.len() > 0,
    ensures
        rank_sorted(drop_nonurgent(s, k)),
    decreases s.len(),
{
    let rest = s.drop_first();
    assert(forall|i: int, j: int|
        0 <= i && i <= j && j < rest.len() ==> #[trigger] rest[i].priority.rank()
            <= #[trigger] rest[j].priority.rank());
    if is_urgent(s[0]) {
        if rest.len() > 0 {
            lemma_sorted_drop(rest, k);
        }
        let d = drop_nonurgent(rest, k);
        lemma_drop_subseq_rank(rest, k, s[0]);
        let whole = seq![s[0]] + d;
        assert forall|i: int, j: int| 0 <= i && i <= j && j < whole.len() implies #[trigger] whole[i].priority.rank() <= #[trigger] whole[j].priority.rank() by {
            if i == 0 {
                if j > 0 {
                    assert(whole[j] == d[j - 1]);
                }
            } else {
                assert(whole[i] == d[i - 1]);
                assert(whole[j] == d[j - 1]);
            }
        }
        assert(rank_sorted(whole));
        assert(drop_nonurgent(s, k) == whole);
    } else if k > 0 {
        if rest.len() > 0 {
            lemma_sorted_drop(rest, (k - 1) as nat);
        }
        assert(drop_nonurgent(s, k) == drop_nonurgent(rest, (k - 1) as nat));
        assert(rank_sorted(drop_nonurgent(rest, (k - 1) as nat)));
    } else {
        assert(drop_nonurgent(s, k) == s);
    }
}

/// A sequence splits into its urgent and its evictable entries.
pub proof fn lemma_urgency_partition(s: Seq<BufferedInput>)
    ensures
        urgent_entries(s).len() + nonurgent_count(s) == s.len(),
    decreases s.len(),
{
    reveal(Seq::filter);
    if s.len() == 0 {
        assert(urgent_entries(s) =~= Seq::<BufferedInput>::empty());
        assert(s.filter(|e: BufferedInput| !is_urgent(e)) =~= Seq::<BufferedInput>::empty());
    } else {
        let butlast = s.drop_last();
        lemma_urgency_partition(butlast);
        assert(s.filter(|e: BufferedInput| is_urgent(e)) == if is_urgent(s.last()) {
            butlast.filter(|e: BufferedInput| is_urgent(e)).push(s.last())
        } else {
            butlast.filter(|e: BufferedInput| is_urgent(e))
        });
        assert(s.filter(|e: BufferedInput| !is_urgent(e)) == if !is_urgent(s.last()) {
            butlast.filter(|e: BufferedInput| !is_urgent(e)).push(s.last())
        } else {
            butlast.filter(|e: BufferedInput| !is_urgent(e))
        });
    }
}

/// Every entry surviving eviction already sat in the buffer, so a head that
/// ranked at or below everything still does.
proof fn lemma_drop_subseq_rank(s: Seq<BufferedInput>, k: nat, head: BufferedInput)
    requires
        forall|i: int| 0 <= i < s.len() ==> head.priority.rank() <= #[trigger] s[i].priority.rank(),
    ensures
        forall|i: int|
            0 <= i < drop_nonurgent(s, k).len() ==> head.priority.rank()
                <= #[trigger] drop_nonurgent(s, k)[i].priority.rank(),
    decreases s.len(),
{
    if s.len() == 0 {
    } else {
        let rest = s.drop_first();
        if is_urgent(s[0]) {
            lemma_drop_subseq_rank(rest, k, head);
            assert(forall|i: int|
                1 <= i < drop_nonurgent(s, k).len() ==> drop_nonurgent(s, k)[i]
                    == drop_nonurgent(rest, k)[i - 1]);
        } else if k > 0 {
            lemma_drop_subseq_rank(rest, (k - 1) as nat, head);
        } else {
        }
    }
}

/// Default window and buffer bound: one megabyte.
pub const DEFAULT_WINDOW_SIZE: u32 = 1048576;

/// Default cap on the number of buffered entries.
pub const DEFAULT_MAX_BUFFER: usize = 1048576;

/// Default cap on delivery attempts per entry.
pub const DEFAULT_MAX_RETRY: u32 = 100;

/// Default staleness timeout for a buffered entry: one hour.
pub const DEFAULT_DRAIN_TIMEOUT_MS: u64 = 3600000;

/// Ceiling on the sent-bytes counter, kept one full window below `u64::MAX`
/// so window arithmetic can never overflow.
pub const SENT_CEILING: u64 = 0xffff_ffff_0000_0000;

/// The buffer after making room for one more entry: while the bound is
/// exceeded, evictable entries leave earliest-first.
pub open spec fn evicted_buffer(s: Seq<BufferedInput>, max: nat) -> Seq<BufferedInput> {
    if s.len() >= max {
        drop_nonurgent(s, (s.len() + 1 - max) as nat)
    } else {
        s
    }
}

/// Where a new entry of rank `r` lands: after every entry of rank at most
/// `r`, before the first more patient one.
pub open spec fn insert_pos(s: Seq<BufferedInput>, r: int) -> int
    decreases s.len(),
{
    if s.len() == 0 {
        0
    } else if s[0].priority.rank() > r {
        0
    } else {
        1 + insert_pos(s.drop_first(), r)
    }
}

/// `insert_pos` is exactly the boundary a left-to-right scan finds.
proof fn lemma_insert_pos_at(s: Seq<BufferedInput>, r: int, j: int)
    requires
        0 <= j <= s.len(),
        forall|i: int| 0 <= i < j ==> #[trigger] s[i].priority.rank() <= r,
        j < s.len() ==> s[j].priority.rank() > r,
    ensures
        insert_pos(s, r) == j,
    decreases s.len(),
{
    if s.len() == 0 {
    } else if s[0].priority.rank() > r {
        assert(j == 0);
    } else {
        assert(j >= 1);
        let rest = s.drop_first();
        assert(forall|i: int| 0 <= i < j - 1 ==> #[trigger] rest[i].priority.rank() <= r);
        lemma_insert_pos_at(rest, r, j - 1);
    }
}

/// What enqueueing one entry yields: the new buffer and whether the entry
/// was accepted.
pub open spec fn spec_enqueue(buf: Seq<BufferedInput>, max: nat, entry: BufferedInput) -> (
    Seq<BufferedInput>,
    bool,
) {
    let mid = evicted_buffer(buf, max);
    if mid.len() >= max {
        (mid, false)
    } else {
        (mid.insert(insert_pos(mid, entry.priority.rank()), entry), true)
    }
}

/// Flow-control engine for one transport/channel pair.
///
/// All fields are plain values; the caller supplies clock readings.  Every
/// mutating method preserves [`Self::well_formed`], whose window clause is
/// the standing guarantee that the bytes in flight
/// (`bytes_sent - bytes_acknowledged`) never exceed the configured window.
#[derive(Debug, Clone)]
pub struct SSHFlowController {
    pub input_buffer: Vec<BufferedInput>,
    pub flow_state: FlowControlState,
    pub window_size: u32,
    pub bytes_sent: u64,
    pub bytes_acknowledged: u64,
    pub max_buffer_size: usize,
    pub max_retry_count: u32,
    pub drain_timeout_ms: u64,
    /// No write is attempted before this instant (exponential backoff).
    pub backoff_until_ms: u64,
    pub last_successful_write_ms: u64,
    pub consecutive_failures: u32,
}

impl SSHFlowController {
    /// The queued entries, most urgent first.
    pub open spec fn buffer(self) -> Seq<BufferedInput> {
        self.input_buffer@
    }

    /// Bytes the peer can still accept.
    pub open spec fn spec_available_window(self) -> int {
        self.window_size - (self.bytes_sent - self.bytes_acknowledged)
    }

    /// Structural invariant, established by [`Self::new`] and preserved by
    /// every method.
    pub open spec fn well_formed(self) -> bool {
        &&& self.bytes_acknowledged <= self.bytes_sent
        &&& self.bytes_sent - self.bytes_acknowledged <= self.window_size
        &&& self.bytes_sent <= SENT_CEILING
        &&& rank_sorted(self.input_buffer@)
        &&& self.max_buffer_size >= 1
    }

    /// The tuning knobs two controller states share.
    pub open spec fn same_config(a: Self, b: Self) -> bool {
        &&& a.window_size == b.window_size
        &&& a.max_buffer_size == b.max_buffer_size
        &&& a.max_retry_count == b.max_retry_count
        &&& a.drain_timeout_ms == b.drain_timeout_ms
    }

    /// A controller with an empty buffer and the default limits.
    pub fn new() -> (r: Self)
        ensures
            r.well_formed(),
            r.buffer() == Seq::<BufferedInput>::empty(),
            r.flow_state == FlowControlState::Normal,
            r.window_size == DEFAULT_WINDOW_SIZE,
            r.bytes_sent == 0,
            r.bytes_acknowledged == 0,
            r.max_buffer_size == DEFAULT_MAX_BUFFER,
            r.max_retry_count == DEFAULT_MAX_RETRY,
            r.drain_timeout_ms == DEFAULT_DRAIN_TIMEOUT_MS,
            r.backoff_until_ms == 0,
    {
        Self {
            input_buffer: Vec::new(),
            flow_state: FlowControlState::Normal,
            window_size: DEFAULT_WINDOW_SIZE,
            bytes_sent: 0,
            bytes_acknowledged: 0,
            max_buffer_size: DEFAULT_MAX_BUFFER,
            max_retry_count: DEFAULT_MAX_RETRY,
            drain_timeout_ms: DEFAULT_DRAIN_TIMEOUT_MS,
            backoff_until_ms: 0,
            last_successful_write_ms: 0,
            consecutive_failures: 0,
        }
    }

    /// Queues one piece of input at its place in the priority order.
    ///
    /// When the buffer is at its bound, evictable entries (rank `Normal`
    /// and below) are dropped earliest-first to make room; control and
    /// navigation input is never dropped.  If urgent entries alone fill the
    /// bound the call fails with a buffer-overflow error and queues
    /// nothing.  Among entries of equal priority the arrival order is kept.
    #[verifier::rlimit(100)]
    #[verifier::spinoff_prover]
    pub fn queue_input(&mut self, data: Vec<u8>, priority: InputPriority, now_ms: u64) -> (r:
        LovelyResResult<()>)
        requires
            old(self).well_formed(),
        ensures
            final(self).well_formed(),
            Self::same_config(*old(self), *final(self)),
            final(self).flow_state == old(self).flow_state,
            final(self).bytes_sent == old(self).bytes_sent,
            final(self).bytes_acknowledged == old(self).bytes_acknowledged,
            final(self).backoff_until_ms == old(self).backoff_until_ms,
            ({
                let mid = evicted_buffer(old(self).buffer(), old(self).max_buffer_size as nat);
                let entry = (BufferedInput {
                    data: data,
                    timestamp: now_ms,
                    priority: priority,
                    retry_count: 0,
                });
                let pos = insert_pos(mid, priority.rank());
                if mid.len() >= old(self).max_buffer_size {
                    &&& r matches Err(LovelyResError::SSHError(_))
                    &&& final(self).buffer() == mid
                } else {
                    &&& r is Ok
                    &&& final(self).buffer() == mid.insert(pos, entry)
                }
            }),
            // an entry fails to queue exactly when urgent entries alone
            // already fill the bound
            (r matches Err(_)) <==> urgent_entries(old(self).buffer()).len()
                >= old(self).max_buffer_size,
            // urgent entries already queued are never dropped: they survive
            // in order, joined by the new entry when it is itself urgent
            (r is Ok && priority.rank() <= 1) ==> exists|p: int|
                0 <= p <= urgent_entries(old(self).buffer()).len() && urgent_entries(
                    final(self).buffer(),
                ) == urgent_entries(old(self).buffer()).insert(
                    p,
                    (BufferedInput {
                        data: data,
                        timestamp: now_ms,
                        priority: priority,
                        retry_count: 0,
                    }),
                ),
            (priority.rank() > 1 || r matches Err(_)) ==> urgent_entries(final(self).buffer())
                == urgent_entries(old(self).buffer()),
            // the same outcome, as one functional step
            ({
                let step = spec_enqueue(
                    old(self).buffer(),
                    old(self).max_buffer_size as nat,
                    (BufferedInput {
                        data: data,
                        timestamp: now_ms,
                        priority: priority,
                        retry_count: 0,
                    }),
                );
                final(self).buffer() == step.0 && (r is Ok) == step.1
            }),
    {
        let ghost old_buf: Seq<BufferedInput> = self.input_buffer@;
        let max: usize = self.max_buffer_size;

        if self.input_buffer.len() >= max {
            let k: usize = self.input_buffer.len() - max + 1;
            self.evict(k);
            proof {
                lemma_drop_nonurgent(old_buf, k as nat);
            }
            if self.input_buffer.len() >= max {
                proof {
                    lemma_urgency_partition(old_buf);
                    lemma_drop_nonurgent(old_buf, k as nat);
                }
                return Err(
                    LovelyResError::SSHError(
                        "Input buffer overflow - too much pending input".to_owned(),
                    ),
                );
            }
        }
        proof {
            lemma_urgency_partition(old_buf);
            if old_buf.len() >= max {
                lemma_drop_nonurgent(old_buf, (old_buf.len() + 1 - max) as nat);
            }
        }

        let entry = BufferedInput::new(data, priority, now_ms);
        let r: u8 = priority.rank_value();
        let ghost mid: Seq<BufferedInput> = self.input_buffer@;

        let mut j: usize = 0;
        while j < self.input_buffer.len()
            invariant
                0 <= j <= self.input_buffer.len(),
                self.input_buffer@ == mid,
                r as int == priority.rank(),
                forall|i: int| 0 <= i < j ==> #[trigger] mid[i].priority.rank() <= r as int,
            ensures
                0 <= j <= self.input_buffer.len(),
                self.input_buffer@ == mid,
                forall|i: int| 0 <= i < j ==> #[trigger] mid[i].priority.rank() <= r as int,
                j < mid.len() ==> mid[j as int].priority.rank() > r as int,
            decreases self.input_buffer.len() - j,
        {
            if self.input_buffer[j].priority.rank_value() > r {
                break ;
            }
            j = j + 1;
        }
        proof {
            lemma_insert_pos_at(mid, r as int, j as int);
        }
        self.input_buffer.insert(j, entry);
        proof {
            let pos = j as int;
            let newbuf = self.input_buffer@;
            assert(newbuf == mid.insert(pos, entry));
            assert forall|a: int, b: int|
                0 <= a && a <= b && b < newbuf.len() implies #[trigger] newbuf[a].priority.rank()
                <= #[trigger] newbuf[b].priority.rank() by {
                if a < pos {
                    assert(newbuf[a] == mid[a]);
                } else if a == pos {
                    assert(newbuf[a] == entry);
                } else {
                    assert(newbuf[a] == mid[a - 1]);
                }
                if b < pos {
                    assert(newbuf[b] == mid[b]);
                } else if b == pos {
                    assert(newbuf[b] == entry);
                } else {
                    assert(newbuf[b] == mid[b - 1]);
                }
            }
            lemma_urgent_after_insert(mid, pos, entry);
            if priority.rank() <= 1 {
                let p = pos - nonurgent_before(mid, pos);
                assert(urgent_entries(mid) == urgent_entries(old(self).buffer()));
                assert(0 <= p <= urgent_entries(old(self).buffer()).len());
                assert(urgent_entries(self.input_buffer@) == urgent_entries(
                    old(self).buffer(),
                ).insert(p, entry));
            }
        }
        Ok(())
    }

    /// Removes up to `k` evictable entries, earliest first.
    fn evict(&mut self, k: usize)
        requires
            old(self).well_formed(),
        ensures
            final(self).well_formed(),
            final(self).input_buffer@ == drop_nonurgent(old(self).input_buffer@, k as nat),
            Self::same_config(*old(self), *final(self)),
            final(self).flow_state == old(self).flow_state,
            final(self).bytes_sent == old(self).bytes_sent,
            final(self).bytes_acknowledged == old(self).bytes_acknowledged,
            final(self).backoff_until_ms == old(self).backoff_until_ms,
            final(self).last_successful_write_ms == old(self).last_successful_write_ms,
            final(self).consecutive_failures == old(self).consecutive_failures,
    {
        let ghost orig: Seq<BufferedInput> = self.input_buffer@;
        let mut dropped: usize = 0;
        loop
            invariant
                dropped <= k,
                drop_nonurgent(orig, k as nat) == drop_nonurgent(
                    self.input_buffer@,
                    (k - dropped) as nat,
                ),
                rank_sorted(self.input_buffer@),
                Self::same_config(*old(self), *self),
                self.flow_state == old(self).flow_state,
                self.bytes_sent == old(self).bytes_sent,
                self.bytes_acknowledged == old(self).bytes_acknowledged,
                self.backoff_until_ms == old(self).backoff_until_ms,
                self.last_successful_write_ms == old(self).last_successful_write_ms,
                self.consecutive_failures == old(self).consecutive_failures,
                old(self).well_formed(),
            ensures
                self.input_buffer@ == drop_nonurgent(orig, k as nat),
                rank_sorted(self.input_buffer@),
                Self::same_config(*old(self), *self),
                self.flow_state == old(self).flow_state,
                self.bytes_sent == old(self).bytes_sent,
                self.bytes_acknowledged == old(self).bytes_acknowledged,
                self.backoff_until_ms == old(self).backoff_until_ms,
                self.last_successful_write_ms == old(self).last_successful_write_ms,
                self.consecutive_failures == old(self).consecutive_failures,
                old(self).well_formed(),
            decreases k - dropped,
        {
            if dropped >= k {
                proof {
                    lemma_drop_zero(self.input_buffer@);
                }
                break ;
            }
            let found = self.first_evictable_index();
            match found {
                None => {
                    proof {
                        lemma_drop_all_urgent(self.input_buffer@, (k - dropped) as nat);
                    }
                    break ;
                },
                Some(i) => {
                    proof {
                        lemma_drop_step(self.input_buffer@, (k - dropped) as nat, i as int);
                        lemma_remove_sorted(self.input_buffer@, i as int);
                    }
                    self.input_buffer.remove(i);
                    dropped = dropped + 1;
                },
            }
        }
    }

    /// The position of the earliest evictable entry, if any.
    fn first_evictable_index(&self) -> (r: Option<usize>)
        ensures
            match r {
                Some(i) => {
                    &&& i < self.input_buffer@.len()
                    &&& !is_urgent(self.input_buffer@[i as int])
                    &&& forall|j: int| 0 <= j < i ==> is_urgent(#[trigger] self.input_buffer@[j])
                },
                None => forall|j: int|
                    0 <= j < self.input_buffer@.len() ==> is_urgent(
                        #[trigger] self.input_buffer@[j],
                    ),
            },
    {
        let mut i: usize = 0;
        while i < self.input_buffer.len()
            invariant
                i <= self.input_buffer@.len(),
                forall|j: int| 0 <= j < i ==> is_urgent(#[trigger] self.input_buffer@[j]),
            decreases self.input_buffer@.len() - i,
        {
            if self.input_buffer[i].priority.rank_value() >= 2 {
                return Some(i);
            }
            i = i + 1;
        }
        None
    }

    /// A run in which nothing stands in the way: the controller is calm,
    /// every queued entry is fresh, within its retry budget and within the
    /// window, and the endpoint accepts every write.
    pub open spec fn clean_run(self, chan: ChannelSink, now_ms: u64) -> bool {
        &&& self.flow_state == FlowControlState::Normal
        &&& now_ms >= self.backoff_until_ms
        &&& chan.script@.len() == 0
        &&& forall|i: int|
            0 <= i < self.buffer().len() ==> (#[trigger] self.buffer()[i]).spec_age(now_ms)
                <= self.drain_timeout_ms
        &&& forall|i: int|
            0 <= i < self.buffer().len() ==> (#[trigger] self.buffer()[i]).retry_count
                < self.max_retry_count
        &&& concat_payloads(self.buffer()).len() <= self.spec_available_window()
        &&& self.bytes_sent + concat_payloads(self.buffer()).len() <= SENT_CEILING
    }

    /// Drains buffered input into the channel endpoint, oldest urgency
    /// class first, under flow control.
    ///
    /// A `Blocked` state, or a pending backoff, makes the call a no-op.
    /// While the call-entry state is `Draining` only control and navigation
    /// entries are considered.  Entries older than the drain timeout or
    /// past the retry cap are discarded.  No more bytes are written than
    /// the window made available, and the bytes-in-flight bound of
    /// [`Self::well_formed`] is preserved.  A broken pipe clears the whole
    /// queue and surfaces as an error; would-block throttles; a peer still
    /// draining puts the controller into `Draining` with exponential
    /// backoff.  On an unobstructed run the endpoint records exactly the
    /// queued bytes, in queue order.
    #[verifier::rlimit(100)]
    pub fn process_input(&mut self, chan: &mut ChannelSink, now_ms: u64) -> (r: LovelyResResult<
        usize,
    >)
        requires
            old(self).well_formed(),
        ensures
            final(self).well_formed(),
            Self::same_config(*old(self), *final(self)),
            final(self).bytes_acknowledged == old(self).bytes_acknowledged,
            final(chan).written@.len() == old(chan).written@.len() + (final(self).bytes_sent
                - old(self).bytes_sent),
            final(self).bytes_sent >= old(self).bytes_sent,
            // never more than the window that was available at entry
            final(self).bytes_sent - old(self).bytes_sent <= old(self).spec_available_window(),
            r matches Ok(n) ==> n as int == final(self).bytes_sent - old(self).bytes_sent,
            // a fatal transport error discards the queue
            r matches Err(_) ==> final(self).buffer().len() == 0 && r matches Err(
                LovelyResError::SSHError(_),
            ),
            // a blocked window makes the call a no-op
            old(self).flow_state == FlowControlState::Blocked ==> *final(self) == *old(self)
                && *final(chan) == *old(chan) && (r matches Ok(n) && n == 0),
            // so does a backoff that has not elapsed
            (old(self).flow_state != FlowControlState::Blocked
                && now_ms < old(self).backoff_until_ms) ==> *final(self) == *old(self)
                && *final(chan) == *old(chan) && (r matches Ok(n) && n == 0),
            // draining considers only urgent entries; the rest stay queued
            (old(self).flow_state == FlowControlState::Draining && r is Ok)
                ==> final(self).buffer().filter(|e: BufferedInput| !is_urgent(e))
                == old(self).buffer().filter(|e: BufferedInput| !is_urgent(e)),
            // an unobstructed run writes every queued byte, in order
            old(self).clean_run(*old(chan), now_ms) ==> (r is Ok && final(self).buffer().len() == 0
                && final(chan).written@ == old(chan).written@ + concat_payloads(
                old(self).buffer(),
            )),
            // the whole call, as one functional step of the drain model
            (old(self).flow_state != FlowControlState::Blocked
                && now_ms >= old(self).backoff_until_ms) ==> ({
                let d = spec_drain(
                    *old(self),
                    drain_view(*old(self), *old(chan)),
                    now_ms,
                    old(self).flow_state == FlowControlState::Draining,
                );
                &&& drain_view(*final(self), *final(chan)) == (DrainView { fatal: false, ..d })
                &&& (r is Err <==> d.fatal)
            }),
    {
        let ghost o: SSHFlowController = *old(self);
        let ghost ochan: ChannelSink = *old(chan);
        let ghost clean: bool = o.clean_run(ochan, now_ms);

        if self.flow_state == FlowControlState::Blocked {
            return Ok(0);
        }
        if now_ms < self.backoff_until_ms {
            return Ok(0);
        }
        let draining_call: bool = self.flow_state == FlowControlState::Draining;
        let mut total: usize = 0;
        proof {
            assert(self.buffer() =~= o.buffer().skip(0));
            assert(concat_payloads(o.buffer().take(0)) =~= Seq::<u8>::empty());
            assert(ochan.written@ + Seq::<u8>::empty() =~= ochan.written@);
        }
        loop
            invariant_except_break
                spec_drain(o, drain_view(*self, *chan), now_ms, draining_call) == spec_drain(
                    o,
                    drain_view(o, ochan),
                    now_ms,
                    draining_call,
                ),
            invariant
                o == *old(self),
                ochan == *old(chan),
                self.well_formed(),
                Self::same_config(o, *self),
                self.bytes_acknowledged == o.bytes_acknowledged,
                self.bytes_sent >= o.bytes_sent,
                chan.written@.len() == ochan.written@.len() + (self.bytes_sent - o.bytes_sent),
                total as int == self.bytes_sent - o.bytes_sent,
                o.flow_state != FlowControlState::Blocked,
                now_ms >= o.backoff_until_ms,
                o.well_formed(),
                self.buffer().len() <= o.buffer().len(),
                draining_call == (o.flow_state == FlowControlState::Draining),
                clean == o.clean_run(ochan, now_ms),
                // the unprocessed entries are a suffix of the entry buffer
                clean ==> self.flow_state == FlowControlState::Normal && chan.script@.len() == 0
                    && self.buffer() == o.buffer().skip(
                    o.buffer().len() - self.buffer().len(),
                ) && chan.written@ == ochan.written@ + concat_payloads(
                    o.buffer().take(o.buffer().len() - self.buffer().len()),
                ),
                draining_call ==> self.buffer().filter(|e: BufferedInput| !is_urgent(e))
                    == o.buffer().filter(|e: BufferedInput| !is_urgent(e)),
            ensures
                self.well_formed(),
                Self::same_config(o, *self),
                self.bytes_acknowledged == o.bytes_acknowledged,
                self.bytes_sent >= o.bytes_sent,
                chan.written@.len() == ochan.written@.len() + (self.bytes_sent - o.bytes_sent),
                total as int == self.bytes_sent - o.bytes_sent,
                clean ==> self.buffer().len() == 0 && chan.written@ == ochan.written@
                    + concat_payloads(o.buffer()),
                draining_call ==> self.buffer().filter(|e: BufferedInput| !is_urgent(e))
                    == o.buffer().filter(|e: BufferedInput| !is_urgent(e)),
                drain_view(*self, *chan) == (DrainView {
                    fatal: false,
                    ..spec_drain(o, drain_view(o, ochan), now_ms, draining_call)
                }),
                !spec_drain(o, drain_view(o, ochan), now_ms, draining_call).fatal,
            decreases self.input_buffer.len(),
        {
            let ghost k0: int = o.buffer().len() - self.buffer().len();
            let ghost vcur: DrainView = drain_view(*self, *chan);
            if self.input_buffer.len() == 0 {
                proof {
                    if clean {
                        assert(self.buffer() =~= o.buffer().skip(k0));
                        assert(o.buffer().take(k0) =~= o.buffer());
                    }
                    assert(spec_drain(o, vcur, now_ms, draining_call) == vcur);
                    assert(vcur =~= (DrainView { fatal: false, ..vcur }));
                }
                break ;
            }
            proof {
                if clean {
                    assert(self.buffer()[0] == o.buffer()[k0]);
                }
            }
            if draining_call && self.input_buffer[0].priority.rank_value() >= 2 {
                proof {
                    assert(!clean);
                    assert(spec_drain(o, vcur, now_ms, draining_call) == vcur);
                    assert(vcur =~= (DrainView { fatal: false, ..vcur }));
                }
                break ;
            }
            let front_stale = self.input_buffer[0].is_stale(now_ms, self.drain_timeout_ms);
            let front_spent = self.input_buffer[0].retry_count >= self.max_retry_count;
            let front_empty = self.input_buffer[0].data.len() == 0;
            if front_stale || front_spent || front_empty {
                let ghost pre: Seq<BufferedInput> = self.buffer();
                let dropped_entry = self.input_buffer.remove(0);
                proof {
                    lemma_remove_sorted(pre, 0);
                    assert(self.buffer() =~= pre.drop_first());
                    if clean {
                        assert(!front_stale && !front_spent);
                        assert(self.buffer() =~= o.buffer().skip(k0 + 1));
                        lemma_concat_take_step(o.buffer(), k0);
                        assert(dropped_entry.data@.len() == 0);
                        assert(dropped_entry.data@ =~= Seq::<u8>::empty());
                        assert(chan.written@ =~= ochan.written@ + concat_payloads(
                            o.buffer().take(k0 + 1),
                        ));
                    }
                    if draining_call {
                        assert(is_urgent(pre[0]));
                        lemma_filter_head(pre, |e: BufferedInput| !is_urgent(e));
                    }
                    assert(spec_entry_dropped(vcur.buffer[0], o, now_ms));
                    assert(drain_view(*self, *chan) =~= (DrainView {
                        buffer: vcur.buffer.drop_first(),
                        ..vcur
                    }));
                    assert(spec_drain(o, vcur, now_ms, draining_call) == spec_drain(
                        o,
                        drain_view(*self, *chan),
                        now_ms,
                        draining_call,
                    ));
                }
                continue ;
            }
            let len: usize = self.input_buffer[0].data.len();
            let pending: u64 = self.bytes_sent - self.bytes_acknowledged;
            let avail: u64 = self.window_size as u64 - pending;
            if len as u64 > avail || self.bytes_sent > SENT_CEILING - len as u64 {
                proof {
                    if clean {
                        assert(self.buffer()[0] == o.buffer()[k0]);
                        lemma_concat_split(o.buffer(), k0);
                        assert(concat_payloads(self.buffer()) == self.buffer()[0].data@
                            + concat_payloads(self.buffer().drop_first()));
                        assert(len as int <= concat_payloads(self.buffer()).len());
                        assert(false);
                    }
                }
                self.flow_state = FlowControlState::Throttled;
                proof {
                    assert(!spec_entry_dropped(vcur.buffer[0], o, now_ms));
                    assert(vcur.buffer[0].data@.len() > o.window_size - (vcur.bytes_sent
                        - o.bytes_acknowledged) || vcur.bytes_sent + vcur.buffer[0].data@.len()
                        > SENT_CEILING);
                    assert(spec_drain(o, vcur, now_ms, draining_call) == (DrainView {
                        flow_state: FlowControlState::Throttled,
                        ..vcur
                    }));
                    assert(drain_view(*self, *chan) =~= (DrainView {
                        flow_state: FlowControlState::Throttled,
                        ..vcur
                    }));
                }
                break ;
            }
            let behavior = chan.take_behavior();
            match behavior {
                WriteBehavior::Accept => {
                    let ghost pre: Seq<BufferedInput> = self.buffer();
                    proof {
                        assert(total as int + len as int <= self.window_size as int) by {
                            assert(self.bytes_acknowledged == o.bytes_acknowledged);
                            assert(o.bytes_acknowledged <= o.bytes_sent);
                            assert(total as int == self.bytes_sent - o.bytes_sent);
                            assert(len as u64 <= avail);
                        }
                    }
                    let entry = self.input_buffer.remove(0);
                    chan.record(&entry.data);
                    self.bytes_sent = self.bytes_sent + len as u64;
                    total = total + len;
                    self.last_successful_write_ms = now_ms;
                    self.consecutive_failures = 0;
                    self.flow_state = FlowControlState::Normal;
                    proof {
                        lemma_remove_sorted(pre, 0);
                        assert(self.buffer() =~= pre.drop_first());
                        if clean {
                            assert(self.buffer() =~= o.buffer().skip(k0 + 1));
                            lemma_concat_take_step(o.buffer(), k0);
                            assert(chan.written@ =~= ochan.written@ + concat_payloads(
                                o.buffer().take(k0 + 1),
                            ));
                        }
                        if draining_call {
                            assert(is_urgent(pre[0]));
                            lemma_filter_head(pre, |e: BufferedInput| !is_urgent(e));
                        }
                        assert(!spec_entry_dropped(vcur.buffer[0], o, now_ms));
                        assert(vcur.buffer[0].data@.len() <= o.window_size - (vcur.bytes_sent
                            - o.bytes_acknowledged) && vcur.bytes_sent
                            + vcur.buffer[0].data@.len() <= SENT_CEILING);
                        assert(drain_view(*self, *chan) =~= (DrainView {
                            buffer: vcur.buffer.drop_first(),
                            flow_state: FlowControlState::Normal,
                            bytes_sent: (vcur.bytes_sent + vcur.buffer[0].data@.len()) as u64,
                            last_successful_write_ms: now_ms,
                            consecutive_failures: 0,
                            script: if vcur.script.len() == 0 {
                                vcur.script
                            } else {
                                vcur.script.drop_first()
                            },
                            written: vcur.written + vcur.buffer[0].data@,
                            ..vcur
                        }));
                        assert(spec_drain(o, vcur, now_ms, draining_call) == spec_drain(
                            o,
                            drain_view(*self, *chan),
                            now_ms,
                            draining_call,
                        ));
                    }
                },
                WriteBehavior::WouldBlock => {
                    proof {
                        assert(!clean);
                        if draining_call {
                            assert(is_urgent(self.buffer()[0]));
                        }
                    }
                    self.flow_state = FlowControlState::Throttled;
                    self.bump_front_retry();
                    proof {
                        assert(!spec_entry_dropped(vcur.buffer[0], o, now_ms));
                        assert(drain_view(*self, *chan) =~= (DrainView {
                            buffer: spec_bump_front(vcur.buffer),
                            flow_state: FlowControlState::Throttled,
                            script: if vcur.script.len() == 0 {
                                vcur.script
                            } else {
                                vcur.script.drop_first()
                            },
                            ..vcur
                        }));
                        assert(spec_drain(o, vcur, now_ms, draining_call) == drain_view(
                            *self,
                            *chan,
                        ));
                        assert(drain_view(*self, *chan) =~= (DrainView {
                            fatal: false,
                            ..drain_view(*self, *chan)
                        }));
                    }
                    break ;
                },
                WriteBehavior::DrainingSignal => {
                    proof {
                        assert(!clean);
                        if draining_call {
                            assert(is_urgent(self.buffer()[0]));
                        }
                    }
                    self.flow_state = FlowControlState::Draining;
                    self.bump_front_retry();
                    let wait = backoff_ms(self.input_buffer[0].retry_count);
                    self.backoff_until_ms = if now_ms <= u64::MAX - wait {
                        now_ms + wait
                    } else {
                        u64::MAX
                    };
                    proof {
                        assert(!spec_entry_dropped(vcur.buffer[0], o, now_ms));
                        assert(self.input_buffer@ == spec_bump_front(vcur.buffer));
                        assert(drain_view(*self, *chan) =~= (DrainView {
                            buffer: spec_bump_front(vcur.buffer),
                            flow_state: FlowControlState::Draining,
                            backoff_until_ms: ({
                                let w = spec_backoff_ms(
                                    spec_bump_front(vcur.buffer)[0].retry_count,
                                );
                                if now_ms + w <= u64::MAX {
                                    (now_ms + w) as u64
                                } else {
                                    u64::MAX
                                }
                            }),
                            script: if vcur.script.len() == 0 {
                                vcur.script
                            } else {
                                vcur.script.drop_first()
                            },
                            ..vcur
                        }));
                        assert(spec_drain(o, vcur, now_ms, draining_call) == drain_view(
                            *self,
                            *chan,
                        ));
                        assert(drain_view(*self, *chan) =~= (DrainView {
                            fatal: false,
                            ..drain_view(*self, *chan)
                        }));
                    }
                    break ;
                },
                WriteBehavior::BrokenPipe => {
                    proof {
                        assert(!clean);
                    }
                    self.input_buffer.clear();
                    proof {
                        assert(!spec_entry_dropped(vcur.buffer[0], o, now_ms));
                        let d = spec_drain(o, vcur, now_ms, draining_call);
                        assert(d == (DrainView {
                            buffer: Seq::<BufferedInput>::empty(),
                            script: if vcur.script.len() == 0 {
                                vcur.script
                            } else {
                                vcur.script.drop_first()
                            },
                            fatal: true,
                            ..vcur
                        }));
                        assert(drain_view(*self, *chan) =~= (DrainView { fatal: false, ..d }));
                    }
                    return Err(LovelyResError::SSHError("Broken pipe".to_owned()));
                },
            }
        }
        Ok(total)
    }

    /// Credits window capacity the peer advertised.
    ///
    /// A `Blocked` controller returns to `Normal` as soon as the resulting
    /// available window is positive; any other state is left alone.
    pub fn adjust_window(&mut self, additional_bytes: u32)
        requires
            old(self).well_formed(),
        ensures
            final(self).well_formed(),
            final(self).window_size == if old(self).window_size + additional_bytes <= u32::MAX {
                old(self).window_size + additional_bytes
            } else {
                u32::MAX as int
            },
            final(self).input_buffer == old(self).input_buffer,
            final(self).bytes_sent == old(self).bytes_sent,
            final(self).bytes_acknowledged == old(self).bytes_acknowledged,
            final(self).max_buffer_size == old(self).max_buffer_size,
            final(self).max_retry_count == old(self).max_retry_count,
            final(self).drain_timeout_ms == old(self).drain_timeout_ms,
            final(self).backoff_until_ms == old(self).backoff_until_ms,
            final(self).flow_state == if old(self).flow_state == FlowControlState::Blocked
                && final(self).spec_available_window() > 0 {
                FlowControlState::Normal
            } else {
                old(self).flow_state
            },
    {
        if additional_bytes <= u32::MAX - self.window_size {
            self.window_size = self.window_size + additional_bytes;
        } else {
            self.window_size = u32::MAX;
        }
        let pending: u64 = self.bytes_sent - self.bytes_acknowledged;
        let available: u64 = self.window_size as u64 - pending;
        if available > 0 && self.flow_state == FlowControlState::Blocked {
            self.flow_state = FlowControlState::Normal;
        }
    }

    /// Records bytes the peer acknowledged, freeing window capacity.
    pub fn acknowledge_bytes(&mut self, n: u64)
        requires
            old(self).well_formed(),
        ensures
            final(self).well_formed(),
            final(self).bytes_acknowledged == if old(self).bytes_acknowledged + n <= old(self).bytes_sent {
                old(self).bytes_acknowledged + n
            } else {
                old(self).bytes_sent as int
            },
            final(self).input_buffer == old(self).input_buffer,
            final(self).bytes_sent == old(self).bytes_sent,
            final(self).flow_state == old(self).flow_state,
            Self::same_config(*old(self), *final(self)),
            final(self).backoff_until_ms == old(self).backoff_until_ms,
    {
        if n <= self.bytes_sent - self.bytes_acknowledged {
            self.bytes_acknowledged = self.bytes_acknowledged + n;
        } else {
            self.bytes_acknowledged = self.bytes_sent;
        }
    }

    /// The current flow-control state.
    pub fn get_flow_state(&self) -> (r: FlowControlState)
        ensures
            r == self.flow_state,
    {
        self.flow_state
    }

    /// Forces a state, as the worker does on peer window signals.
    pub fn set_flow_state(&mut self, new_state: FlowControlState)
        requires
            old(self).well_formed(),
        ensures
            final(self).well_formed(),
            final(self).flow_state == new_state,
            final(self).input_buffer == old(self).input_buffer,
            final(self).bytes_sent == old(self).bytes_sent,
            final(self).bytes_acknowledged == old(self).bytes_acknowledged,
            Self::same_config(*old(self), *final(self)),
            final(self).backoff_until_ms == old(self).backoff_until_ms,
    {
        self.flow_state = new_state;
    }

    /// Queue length, number of urgent entries, and state, in one reading.
    pub fn get_buffer_stats(&self) -> (r: (usize, usize, FlowControlState))
        ensures
            r.0 == self.buffer().len(),
            r.1 == urgent_entries(self.buffer()).len(),
            r.2 == self.flow_state,
    {
        let ghost buf: Seq<BufferedInput> = self.input_buffer@;
        let mut high: usize = 0;
        let mut i: usize = 0;
        while i < self.input_buffer.len()
            invariant
                0 <= i <= buf.len(),
                self.input_buffer@ == buf,
                high == urgent_entries(buf.take(i as int)).len(),
                high <= i,
            decreases buf.len() - i,
        {
            proof {
                reveal(Seq::filter);
                assert(buf.take(i as int + 1).drop_last() =~= buf.take(i as int));
                assert(buf.take(i as int + 1).last() == buf[i as int]);
            }
            if self.input_buffer[i].priority.rank_value() <= 1 {
                high = high + 1;
            }
            i = i + 1;
        }
        proof {
            assert(buf.take(buf.len() as int) =~= buf);
        }
        (self.input_buffer.len(), high, self.flow_state)
    }

    /// Empties the queue and calms the state: the emergency reset.
    pub fn clear_buffer(&mut self)
        requires
            old(self).well_formed(),
        ensures
            final(self).well_formed(),
            final(self).buffer().len() == 0,
            final(self).flow_state == FlowControlState::Normal,
            final(self).bytes_sent == old(self).bytes_sent,
            final(self).bytes_acknowledged == old(self).bytes_acknowledged,
            Self::same_config(*old(self), *final(self)),
    {
        self.input_buffer.clear();
        self.flow_state = FlowControlState::Normal;
    }

    /// Classifies raw input bytes by urgency.
    ///
    /// Single control bytes (interrupt, end-of-transmission, suspend,
    /// carriage return, line feed, backspace, delete, tab) and ANSI escape
    /// sequences are `Control`; payloads over a hundred bytes are `Bulk`
    /// paste traffic; everything else is `Normal` typing.
    pub fn classify_input_priority(data: &[u8]) -> (r: InputPriority)
        ensures
            r == spec_classify(data@),
    {
        if data.len() == 0 {
            return InputPriority::Normal;
        }
        if data.len() == 1 {
            let b = data[0];
            if b == 0x03 || b == 0x04 || b == 0x1a || b == 0x0d || b == 0x0a || b == 0x7f || b
                == 0x08 || b == 0x09 {
                return InputPriority::Control;
            }
        }
        if data.len() >= 2 && data[0] == 0x1b && (data[1] == 0x5b || data[1] == 0x4f) {
            return InputPriority::Control;
        }
        if data.len() > 100 {
            return InputPriority::Bulk;
        }
        InputPriority::Normal
    }

    /// Counts one more failed attempt against the front entry.
    fn bump_front_retry(&mut self)
        requires
            old(self).well_formed(),
            old(self).input_buffer@.len() > 0,
        ensures
            final(self).well_formed(),
            final(self).input_buffer@ == spec_bump_front(old(self).input_buffer@),
            final(self).input_buffer@.len() == old(self).input_buffer@.len(),
            Self::same_config(*old(self), *final(self)),
            final(self).flow_state == old(self).flow_state,
            final(self).bytes_sent == old(self).bytes_sent,
            final(self).bytes_acknowledged == old(self).bytes_acknowledged,
            final(self).backoff_until_ms == old(self).backoff_until_ms,
            final(self).last_successful_write_ms == old(self).last_successful_write_ms,
            final(self).consecutive_failures == old(self).consecutive_failures,
            is_urgent(old(self).input_buffer@[0]) ==> final(self).buffer().filter(
                |e: BufferedInput| !is_urgent(e),
            ) == old(self).buffer().filter(|e: BufferedInput| !is_urgent(e)),
    {
        let ghost pre: Seq<BufferedInput> = self.input_buffer@;
        let mut front = self.input_buffer.remove(0);
        front.increment_retry();
        self.input_buffer.insert(0, front);
        proof {
            assert(self.input_buffer@ =~= spec_bump_front(pre));
        }
        proof {
            let cur = self.input_buffer@;
            assert(cur.len() == pre.len());
            assert(cur[0].priority == pre[0].priority);
            assert(forall|i: int| 1 <= i < cur.len() ==> cur[i] == pre[i]);
            assert forall|a: int, b: int|
                0 <= a && a <= b && b < cur.len() implies #[trigger] cur[a].priority.rank()
                <= #[trigger] cur[b].priority.rank() by {
                if a == 0 {
                    assert(pre[a].priority.rank() <= pre[b].priority.rank());
                } else {
                }
            }
            if is_urgent(pre[0]) {
                assert(is_urgent(cur[0]));
                lemma_filter_head(cur, |e: BufferedInput| !is_urgent(e));
                lemma_filter_head(pre, |e: BufferedInput| !is_urgent(e));
                assert(cur.drop_first() =~= pre.drop_first());
            }
        }
    }
}

/// Urgency of a raw input payload.
pub open spec fn spec_classify(data: Seq<u8>) -> InputPriority {
    if data.len() == 0 {
        InputPriority::Normal
    } else if data.len() == 1 && (data[0] == 0x03 || data[0] == 0x04 || data[0] == 0x1a || data[0]
        == 0x0d || data[0] == 0x0a || data[0] == 0x7f || data[0] == 0x08 || data[0] == 0x09) {
        InputPriority::Control
    } else if data.len() >= 2 && data[0] == 0x1b && (data[1] == 0x5b || data[1] == 0x4f) {
        InputPriority::Control
    } else if data.len() > 100 {
        InputPriority::Bulk
    } else {
        InputPriority::Normal
    }
}

/// Entries dequeue in non-decreasing priority rank: the buffer of a
/// well-formed controller is sorted, so whatever leaves the front is at
/// least as urgent as everything still queued.  Together with the exact
/// buffer shape [`SSHFlowController::queue_input`] ensures, which places a
/// new entry after every entry of its own class, this gives first-in
/// first-out delivery within one priority class.
pub proof fn lemma_dequeue_priority_order(c: SSHFlowController, i: int, j: int)
    requires
        c.well_formed(),
        0 <= i <= j < c.buffer().len(),
    ensures
        c.buffer()[i].priority.rank() <= c.buffer()[j].priority.rank(),
{
}

/// The standing window discipline: however the controller is driven, the
/// bytes in flight never exceed the configured window.  This is the
/// window clause of [`SSHFlowController::well_formed`], which every
/// method establishes again.
pub proof fn lemma_inflight_within_window(c: SSHFlowController)
    requires
        c.well_formed(),
    ensures
        c.bytes_sent - c.bytes_acknowledged <= c.window_size,
{
}

/// Making room never touches control or navigation input, and an enqueue
/// is refused exactly when urgent entries alone already fill the buffer.
pub proof fn lemma_eviction_spares_urgent(s: Seq<BufferedInput>, max: nat)
    requires
        max >= 1,
    ensures
        urgent_entries(evicted_buffer(s, max)) == urgent_entries(s),
        evicted_buffer(s, max).len() >= max <==> urgent_entries(s).len() >= max,
{
    if s.len() >= max {
        let k: nat = (s.len() + 1 - max) as nat;
        lemma_drop_nonurgent(s, k);
        lemma_urgency_partition(s);
    } else {
        lemma_urgency_partition(s);
    }
}

/// Evictable entries strictly before position `pos`.
pub open spec fn nonurgent_before(s: Seq<BufferedInput>, pos: int) -> int {
    s.take(pos).filter(|e: BufferedInput| !is_urgent(e)).len() as int
}

/// Dropping zero entries changes nothing.
proof fn lemma_drop_zero(s: Seq<BufferedInput>)
    ensures
        drop_nonurgent(s, 0) == s,
    decreases s.len(),
{
    if s.len() == 0 {
    } else if is_urgent(s[0]) {
        lemma_drop_zero(s.drop_first());
        assert(drop_nonurgent(s, 0) =~= s);
    } else {
    }
}

/// Inserting an entry at `pos` inserts it among the urgent entries exactly
/// when it is urgent, and leaves them alone otherwise.
proof fn lemma_urgent_after_insert(s: Seq<BufferedInput>, pos: int, entry: BufferedInput)
    requires
        0 <= pos <= s.len(),
    ensures
        urgent_entries(s.insert(pos, entry)) == if is_urgent(entry) {
            urgent_entries(s).insert(pos - nonurgent_before(s, pos), entry)
        } else {
            urgent_entries(s)
        },
        is_urgent(entry) ==> 0 <= pos - nonurgent_before(s, pos) <= urgent_entries(s).len(),
    decreases s.len() - pos,
{
    reveal(Seq::filter);
    if pos == s.len() {
        lemma_urgent_insert_at_end(s, entry);
    } else {
        let last = s.last();
        let butlast = s.drop_last();
        lemma_urgent_after_insert(butlast, pos, entry);
        assert(s.insert(pos, entry).drop_last() =~= butlast.insert(pos, entry));
        assert(s.insert(pos, entry).last() == last);
        assert(s.take(pos) =~= butlast.take(pos));
        lemma_filter_take_bound(s, pos);
    }
}

/// Appending an entry appends to the urgent entries exactly when urgent.
proof fn lemma_urgent_insert_at_end(s: Seq<BufferedInput>, entry: BufferedInput)
    ensures
        urgent_entries(s.push(entry)) == if is_urgent(entry) {
            urgent_entries(s).push(entry)
        } else {
            urgent_entries(s)
        },
        urgent_entries(s.insert(s.len() as int, entry)) == if is_urgent(entry) {
            urgent_entries(s).insert(
                s.len() - nonurgent_before(s, s.len() as int),
                entry,
            )
        } else {
            urgent_entries(s)
        },
        0 <= s.len() - nonurgent_before(s, s.len() as int) <= urgent_entries(s).len(),
{
    reveal(Seq::filter);
    assert(s.insert(s.len() as int, entry) =~= s.push(entry));
    assert(s.push(entry).drop_last() =~= s);
    lemma_urgency_partition(s);
    assert(s.take(s.len() as int) =~= s);
    if is_urgent(entry) {
        assert(urgent_entries(s).insert(urgent_entries(s).len() as int, entry)
            =~= urgent_entries(s).push(entry));
    }
}

/// The evictable entries in a prefix are no more than in the whole.
proof fn lemma_filter_take_bound(s: Seq<BufferedInput>, pos: int)
    requires
        0 <= pos <= s.len(),
    ensures
        s.take(pos).filter(|e: BufferedInput| !is_urgent(e)).len() <= s.filter(
            |e: BufferedInput| !is_urgent(e),
        ).len(),
    decreases s.len() - pos,
{
    reveal(Seq::filter);
    if pos == s.len() {
        assert(s.take(pos) =~= s);
    } else {
        lemma_filter_take_bound(s.drop_last(), pos);
        assert(s.drop_last().take(pos) =~= s.take(pos));
        assert(s.drop_last().filter(|e: BufferedInput| !is_urgent(e)).len() <= s.filter(
            |e: BufferedInput| !is_urgent(e),
        ).len());
    }
}

/// The bytes of a buffer, in delivery order.
pub open spec fn concat_payloads(s: Seq<BufferedInput>) -> Seq<u8>
    decreases s.len(),
{
    if s.len() == 0 {
        Seq::<u8>::empty()
    } else {
        s[0].data@ + concat_payloads(s.drop_first())
    }
}

/// Exponential backoff after a draining signal, capped at one second:
/// 50 ms doubled per retry already made.
pub open spec fn spec_backoff_ms(retry: u32) -> int {
    if retry == 0 {
        50
    } else if retry == 1 {
        100
    } else if retry == 2 {
        200
    } else if retry == 3 {
        400
    } else if retry == 4 {
        800
    } else {
        1000
    }
}

/// Executable form of [`spec_backoff_ms`].
fn backoff_ms(retry: u32) -> (r: u64)
    ensures
        r as int == spec_backoff_ms(retry),
{
    if retry == 0 {
        50
    } else if retry == 1 {
        100
    } else if retry == 2 {
        200
    } else if retry == 3 {
        400
    } else if retry == 4 {
        800
    } else {
        1000
    }
}

/// A buffer's bytes split around any position.
pub proof fn lemma_concat_split(s: Seq<BufferedInput>, k: int)
    requires
        0 <= k <= s.len(),
    ensures
        concat_payloads(s) == concat_payloads(s.take(k)) + concat_payloads(s.skip(k)),
    decreases k,
{
    if k == 0 {
        assert(s.take(0) =~= Seq::<BufferedInput>::empty());
        assert(s.skip(0) =~= s);
        assert(concat_payloads(s.take(0)) + concat_payloads(s.skip(0)) =~= concat_payloads(s));
    } else {
        let t = s.take(k);
        assert(t.len() > 0);
        assert(t[0] == s[0]);
        assert(t.drop_first() =~= s.drop_first().take(k - 1));
        assert(s.skip(k) =~= s.drop_first().skip(k - 1));
        lemma_concat_split(s.drop_first(), k - 1);
        assert(concat_payloads(s) == s[0].data@ + concat_payloads(s.drop_first()));
        assert(concat_payloads(t) == s[0].data@ + concat_payloads(s.drop_first().take(k - 1)));
        assert(concat_payloads(s.take(k)) + concat_payloads(s.skip(k)) =~= concat_payloads(s));
    }
}

/// Extending a processed prefix by one entry appends that entry's bytes.
pub proof fn lemma_concat_take_step(s: Seq<BufferedInput>, k: int)
    requires
        0 <= k < s.len(),
    ensures
        concat_payloads(s.take(k + 1)) == concat_payloads(s.take(k)) + s[k].data@,
{
    lemma_concat_split(s.take(k + 1), k);
    assert(s.take(k + 1).take(k) =~= s.take(k));
    assert(s.take(k + 1).skip(k) =~= seq![s[k]]);
    assert(concat_payloads(seq![s[k]]) =~= s[k].data@) by {
        assert(seq![s[k]].drop_first() =~= Seq::<BufferedInput>::empty());
        assert(concat_payloads(Seq::<BufferedInput>::empty()) == Seq::<u8>::empty());
        assert(concat_payloads(seq![s[k]]) == s[k].data@ + concat_payloads(
            seq![s[k]].drop_first(),
        ));
        assert(s[k].data@ + Seq::<u8>::empty() =~= s[k].data@);
    }
}

/// An entry the drain discards without writing: too old, out of
/// retries, or empty.
pub open spec fn spec_entry_dropped(e: BufferedInput, c: SSHFlowController, now_ms: u64) -> bool {
    ||| e.spec_age(now_ms) > c.drain_timeout_ms
    ||| e.retry_count >= c.max_retry_count
    ||| e.data@.len() == 0
}

/// The buffer with one retry counted against its front entry.
pub open spec fn spec_bump_front(s: Seq<BufferedInput>) -> Seq<BufferedInput> {
    s.update(
        0,
        (BufferedInput {
            retry_count: if s[0].retry_count < u32::MAX {
                (s[0].retry_count + 1) as u32
            } else {
                u32::MAX
            },
            ..s[0]
        }),
    )
}

/// Everything one drain call reads and writes, gathered so the whole call
/// can be stated as one function.
#[verifier::ext_equal]
pub struct DrainView {
    pub buffer: Seq<BufferedInput>,
    pub flow_state: FlowControlState,
    pub bytes_sent: u64,
    pub backoff_until_ms: u64,
    pub last_successful_write_ms: u64,
    pub consecutive_failures: u32,
    pub script: Seq<WriteBehavior>,
    pub written: Seq<u8>,
    /// Whether the drain ended on a fatal transport error.
    pub fatal: bool,
}

/// The drained side of a controller and its endpoint.
pub open spec fn drain_view(c: SSHFlowController, chan: ChannelSink) -> DrainView {
    DrainView {
        buffer: c.input_buffer@,
        flow_state: c.flow_state,
        bytes_sent: c.bytes_sent,
        backoff_until_ms: c.backoff_until_ms,
        last_successful_write_ms: c.last_successful_write_ms,
        consecutive_failures: c.consecutive_failures,
        script: chan.script@,
        written: chan.written@,
        fatal: false,
    }
}

/// What one drain call does, entry by entry: `c` supplies the fixed
/// configuration and acknowledgement count, `dc` whether the call found
/// the controller `Draining`.  Stale, spent and empty entries are
/// discarded unwritten; an entry that does not fit the remaining window
/// throttles the controller and stops; an accepted entry is recorded and
/// restores `Normal`; would-block throttles and counts a retry against
/// the refused entry; a draining signal counts the retry, moves to
/// `Draining` and backs off exponentially; a broken pipe discards the
/// whole queue fatally.
pub open spec fn spec_drain(c: SSHFlowController, v: DrainView, now_ms: u64, dc: bool) -> DrainView
    decreases v.buffer.len(),
{
    if v.buffer.len() == 0 {
        v
    } else {
        let e = v.buffer[0];
        if dc && e.priority.rank() > 1 {
            v
        } else if spec_entry_dropped(e, c, now_ms) {
            spec_drain(c, DrainView { buffer: v.buffer.drop_first(), ..v }, now_ms, dc)
        } else if e.data@.len() > c.window_size - (v.bytes_sent - c.bytes_acknowledged)
            || v.bytes_sent + e.data@.len() > SENT_CEILING {
            DrainView { flow_state: FlowControlState::Throttled, ..v }
        } else {
            let b = if v.script.len() == 0 {
                WriteBehavior::Accept
            } else {
                v.script[0]
            };
            let script2 = if v.script.len() == 0 {
                v.script
            } else {
                v.script.drop_first()
            };
            match b {
                WriteBehavior::Accept => spec_drain(
                    c,
                    DrainView {
                        buffer: v.buffer.drop_first(),
                        flow_state: FlowControlState::Normal,
                        bytes_sent: (v.bytes_sent + e.data@.len()) as u64,
                        last_successful_write_ms: now_ms,
                        consecutive_failures: 0,
                        script: script2,
                        written: v.written + e.data@,
                        ..v
                    },
                    now_ms,
                    dc,
                ),
                WriteBehavior::WouldBlock => DrainView {
                    buffer: spec_bump_front(v.buffer),
                    flow_state: FlowControlState::Throttled,
                    script: script2,
                    ..v
                },
                WriteBehavior::DrainingSignal => DrainView {
                    buffer: spec_bump_front(v.buffer),
                    flow_state: FlowControlState::Draining,
                    backoff_until_ms: ({
                        let wait = spec_backoff_ms(spec_bump_front(v.buffer)[0].retry_count);
                        if now_ms + wait <= u64::MAX {
                            (now_ms + wait) as u64
                        } else {
                            u64::MAX
                        }
                    }),
                    script: script2,
                    ..v
                },
                WriteBehavior::BrokenPipe => DrainView {
                    buffer: Seq::<BufferedInput>::empty(),
                    script: script2,
                    fatal: true,
                    ..v
                },
            }
        }
    }
}

/// On a buffer of urgent entries alone, eviction removes nothing.
proof fn lemma_drop_all_urgent(s: Seq<BufferedInput>, k: nat)
    requires
        forall|j: int| 0 <= j < s.len() ==> is_urgent(#[trigger] s[j]),
    ensures
        drop_nonurgent(s, k) == s,
    decreases s.len(),
{
    if s.len() == 0 {
    } else {
        lemma_drop_all_urgent(s.drop_first(), k);
        assert(drop_nonurgent(s, k) =~= s);
    }
}

/// Evicting once removes exactly the earliest evictable entry.
proof fn lemma_drop_step(s: Seq<BufferedInput>, k: nat, i: int)
    requires
        k > 0,
        0 <= i < s.len(),
        !is_urgent(s[i]),
        forall|j: int| 0 <= j < i ==> is_urgent(#[trigger] s[j]),
    ensures
        drop_nonurgent(s, k) == drop_nonurgent(s.remove(i), (k - 1) as nat),
    decreases s.len(),
{
    if i == 0 {
        assert(s.remove(0) =~= s.drop_first());
    } else {
        let rest = s.drop_first();
        lemma_drop_step(rest, k, i - 1);
        assert(s.remove(i).drop_first() =~= rest.remove(i - 1));
        assert(s.remove(i)[0] == s[0]);
        assert(is_urgent(s.remove(i)[0]));
        assert(drop_nonurgent(s.remove(i), (k - 1) as nat) == seq![s[0]] + drop_nonurgent(
            rest.remove(i - 1),
            (k - 1) as nat,
        ));
    }
}

/// Removing any entry keeps the buffer sorted.
proof fn lemma_remove_sorted(s: Seq<BufferedInput>, i: int)
    requires
        rank_sorted(s),
        0 <= i < s.len(),
    ensures
        rank_sorted(s.remove(i)),
{
    let t = s.remove(i);
    assert forall|a: int, b: int|
        0 <= a && a <= b && b < t.len() implies #[trigger] t[a].priority.rank()
        <= #[trigger] t[b].priority.rank() by {
        let a0 = if a < i {
            a
        } else {
            a + 1
        };
        let b0 = if b < i {
            b
        } else {
            b + 1
        };
        assert(t[a] == s[a0]);
        assert(t[b] == s[b0]);
    }
}

} // verus!
