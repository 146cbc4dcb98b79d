//! The decisions of one backtest's thread: when to wait, when to send a tick and
//! after how long a pause, and when to end.

use vstd::prelude::*;

use crate::backtest::{exit_due, BacktestDefinition, BacktestType};
use crate::control::{action_of, next_state, state_after, PolicyAction, StreamState, TickstreamCommand};
use crate::tick::Tick;

verus! {

/// The state of one backtest's stream.
pub struct JobState {
    pub state: StreamState,
    /// How many ticks were sent so far.
    pub delivered: usize,
    pub max_tick_n: Option<usize>,
    pub max_timestamp: Option<u64>,
    pub timing: BacktestType,
    /// The timestamp of the last tick sent, if any.
    pub last_timestamp: Option<u64>,
}

/// The position of the first tick, from position `k` of `ticks` on, that ends a
/// stream which had sent `done` ticks before `ticks[0]`; the length if none does.
pub open spec fn first_exit(
    max_tick_n: Option<usize>,
    max_timestamp: Option<u64>,
    ticks: Seq<Tick>,
    done: int,
    k: int,
) -> int
    decreases ticks.len() - k,
{
    if k < 0 || k >= ticks.len() {
        ticks.len() as int
    } else if exit_due(max_tick_n, max_timestamp, ticks[k], done + k + 1) {
        k
    } else {
        first_exit(max_tick_n, max_timestamp, ticks, done, k + 1)
    }
}

/// The ticks that a running stream sends from `ticks`, having sent `done` before:
/// each in turn, up to and including the first one that ends it.
pub open spec fn deliveries(
    max_tick_n: Option<usize>,
    max_timestamp: Option<u64>,
    ticks: Seq<Tick>,
    done: int,
) -> Seq<Tick> {
    let e = first_exit(max_tick_n, max_timestamp, ticks, done, 0);
    if e < ticks.len() {
        ticks.subrange(0, e + 1)
    } else {
        ticks
    }
}

/// The pause before sending `t`: the fixed delay, or the gap since the last tick
/// sent (none before the first tick, or where time went back).
pub open spec fn pause_for(timing: BacktestType, last: Option<u64>, t: Tick) -> int {
    match timing {
        BacktestType::Fast { delay_ms } => delay_ms as int,
        BacktestType::Live => match last {
            Some(p) => if p <= t.timestamp { t.timestamp - p } else { 0 },
            None => 0,
        },
    }
}

impl JobState {
    /// The stream of a newly started backtest: paused, with nothing sent.
    pub fn new(def: &BacktestDefinition) -> (r: JobState)
        ensures
            r.state == StreamState::Paused,
            r.delivered == 0,
            r.max_tick_n == def.max_tick_n,
            r.max_timestamp == def.max_timestamp,
            r.timing == def.backtest_type,
            r.last_timestamp is None,
    {
        JobState {
            state: StreamState::Paused,
            delivered: 0,
            max_tick_n: def.max_tick_n,
            max_timestamp: def.max_timestamp,
            timing: def.backtest_type.duplicate(),
            last_timestamp: None,
        }
    }

    /// Takes a command from the control channel.
    pub fn command(&mut self, cmd: TickstreamCommand)
        ensures
            final(self).state == next_state(old(self).state, cmd),
            final(self).delivered == old(self).delivered,
            final(self).max_tick_n == old(self).max_tick_n,
            final(self).max_timestamp == old(self).max_timestamp,
            final(self).timing == old(self).timing,
            final(self).last_timestamp == old(self).last_timestamp,
    {
        self.state = self.state.apply(cmd);
    }

    /// What the stream does next.
    pub fn next_action(&self) -> (r: PolicyAction)
        ensures
            r == action_of(self.state),
    {
        self.state.action()
    }

    /// The milliseconds to wait before sending `t`.
    pub fn pause_before(&self, t: &Tick) -> (r: u64)
        ensures
            r == pause_for(self.timing, self.last_timestamp, *t),
    {
        match self.timing {
            BacktestType::Fast { delay_ms } => delay_ms as u64,
            BacktestType::Live => match self.last_timestamp {
                Some(p) => if p <= t.timestamp { t.timestamp - p } else { 0 },
                None => 0,
            },
        }
    }

    /// Records that `t` was sent; true where that ends the backtest.
    pub fn deliver(&mut self, t: &Tick) -> (r: bool)
        requires
            old(self).state == StreamState::Running,
            old(self).delivered < usize::MAX,
        ensures
            final(self).delivered == old(self).delivered + 1,
            final(self).last_timestamp == Some(t.timestamp),
            r == exit_due(old(self).max_tick_n, old(self).max_timestamp, *t, final(self).delivered as int),
            final(self).state == (if r { StreamState::Ended } else { StreamState::Running }),
            final(self).max_tick_n == old(self).max_tick_n,
            final(self).max_timestamp == old(self).max_timestamp,
            final(self).timing == old(self).timing,
    {
        self.delivered = self.delivered + 1;
        self.last_timestamp = Some(t.timestamp);
        let by_count = match self.max_tick_n {
            Some(n) => n <= self.delivered,
            None => false,
        };
        let by_time = match self.max_timestamp {
            Some(m) => m <= t.timestamp,
            None => false,
        };
        let r = by_count || by_time;
        if r {
            self.state = StreamState::Ended;
        }
        r
    }

    /// The source has run dry: the stream ends, and the command it sends itself
    /// so that its channel sees the end too is returned.
    pub fn source_ended(&mut self) -> (r: TickstreamCommand)
        ensures
            r == TickstreamCommand::Stop,
            final(self).state == StreamState::Ended,
            final(self).delivered == old(self).delivered,
            final(self).last_timestamp == old(self).last_timestamp,
    {
        self.state = StreamState::Ended;
        TickstreamCommand::Stop
    }

    /// Sends the ticks of `ticks` in turn from a running stream until one ends it
    /// or they run out; returns those sent, in order.
    pub fn run(&mut self, ticks: &Vec<Tick>) -> (r: Vec<Tick>)
        requires
            old(self).state == StreamState::Running,
            old(self).delivered + ticks.len() < usize::MAX,
        ensures
            r@ == deliveries(old(self).max_tick_n, old(self).max_timestamp, ticks@, old(self).delivered as int),
            final(self).delivered == old(self).delivered + r.len(),
            final(self).state == (if first_exit(
                old(self).max_tick_n,
                old(self).max_timestamp,
                ticks@,
                old(self).delivered as int,
                0,
            ) < ticks.len() { StreamState::Ended } else { StreamState::Running }),
    {
        let ghost done = self.delivered as int;
        let ghost e = first_exit(self.max_tick_n, self.max_timestamp, ticks@, done, 0);
        let mut out: Vec<Tick> = Vec::new();
        let mut i: usize = 0;
        while i < ticks.len()
            invariant
                0 <= i <= ticks.len(),
                self.state == StreamState::Running,
                self.delivered == done + i,
                self.max_tick_n == old(self).max_tick_n,
                self.max_timestamp == old(self).max_timestamp,
                done == old(self).delivered,
                done + ticks.len() < usize::MAX,
                e == first_exit(self.max_tick_n, self.max_timestamp, ticks@, done, i as int),
                e == first_exit(old(self).max_tick_n, old(self).max_timestamp, ticks@, done, 0),
                out@ == ticks@.subrange(0, i as int),
            decreases ticks.len() - i,
        {
            let t = ticks[i];
            out.push(t);
            if self.deliver(&t) {
                proof {
                    assert(out@ =~= ticks@.subrange(0, i + 1));
                }
                return out;
            }
            i = i + 1;
        }
        proof {
            assert(out@ =~= ticks@);
        }
        out
    }
}

/// A new backtest sends nothing until it is resumed: whatever run of commands
/// without Resume reaches it first, it is never found delivering.
pub proof fn lemma_nothing_before_resume(cmds: Seq<TickstreamCommand>)
    requires
        forall|i: int| 0 <= i < cmds.len() ==> cmds[i] != TickstreamCommand::Resume,
    ensures
        action_of(state_after(StreamState::Paused, cmds)) != PolicyAction::Deliver,
{
    lemma_no_resume_not_running(StreamState::Paused, cmds);
}

proof fn lemma_no_resume_not_running(s: StreamState, cmds: Seq<TickstreamCommand>)
    requires
        s != StreamState::Running,
        forall|i: int| 0 <= i < cmds.len() ==> cmds[i] != TickstreamCommand::Resume,
    ensures
        state_after(s, cmds) != StreamState::Running,
    decreases cmds.len(),
{
    if cmds.len() > 0 {
        let rest = cmds.drop_first();
        assert forall|i: int| 0 <= i < rest.len() implies rest[i] != TickstreamCommand::Resume by {
            assert(rest[i] == cmds[i + 1]);
        }
        lemma_no_resume_not_running(next_state(s, cmds[0]), rest);
    }
}

} // verus!

verus! {

/// `first_exit` lands on the first tick that ends the stream, or past the end.
pub proof fn lemma_first_exit(
    max_tick_n: Option<usize>,
    max_timestamp: Option<u64>,
    ticks: Seq<Tick>,
    done: int,
    k: int,
)
    requires
        0 <= k <= ticks.len(),
    ensures
        k <= first_exit(max_tick_n, max_timestamp, ticks, done, k) <= ticks.len(),
        forall|j: int|
            k <= j < first_exit(max_tick_n, max_timestamp, ticks, done, k) ==> !exit_due(
                max_tick_n,
                max_timestamp,
                #[trigger] ticks[j],
                done + j + 1,
            ),
        first_exit(max_tick_n, max_timestamp, ticks, done, k) < ticks.len() ==> exit_due(
            max_tick_n,
            max_timestamp,
            ticks[first_exit(max_tick_n, max_timestamp, ticks, done, k)],
            done + first_exit(max_tick_n, max_timestamp, ticks, done, k) + 1,
        ),
    decreases ticks.len() - k,
{
    if k < ticks.len() && !exit_due(max_tick_n, max_timestamp, ticks[k], done + k + 1) {
        lemma_first_exit(max_tick_n, max_timestamp, ticks, done, k + 1);
    }
}

/// A stream limited to `n` ticks, resumed on a source of at least `n` ticks with
/// no timestamp limit, sends exactly `n` ticks, the first `n` of the source, and
/// then ends.
pub proof fn lemma_exit_by_count(n: usize, ticks: Seq<Tick>)
    requires
        n >= 1,
        ticks.len() >= n,
    ensures
        first_exit(Some(n), None, ticks, 0, 0) == n - 1,
        deliveries(Some(n), None, ticks, 0).len() == n,
        deliveries(Some(n), None, ticks, 0) == ticks.subrange(0, n as int),
{
    lemma_first_exit(Some(n), None, ticks, 0, 0);
    let e = first_exit(Some(n), None, ticks, 0, 0);
    if e > n - 1 {
        assert(!exit_due(Some(n), None, ticks[n - 1], n as int));
    }
}

/// A stream limited to timestamp `m`, with no tick limit, sends a prefix of its
/// source in which every tick but the last is before `m`; where the source reaches
/// `m`, the last tick sent is the first one at or after `m`.
pub proof fn lemma_exit_by_timestamp(m: u64, ticks: Seq<Tick>)
    ensures
        ({
            let d = deliveries(None, Some(m), ticks, 0);
            &&& d == ticks.subrange(0, d.len() as int)
            &&& forall|i: int| 0 <= i < d.len() - 1 ==> #[trigger] d[i].timestamp < m
            &&& (exists|j: int| 0 <= j < ticks.len() && #[trigger] ticks[j].timestamp >= m) ==> d.len() > 0
                && d.last().timestamp >= m
        }),
{
    lemma_first_exit(None, Some(m), ticks, 0, 0);
    let e = first_exit(None, Some(m), ticks, 0, 0);
    let d = deliveries(None, Some(m), ticks, 0);
    if e >= ticks.len() {
        assert(d =~= ticks.subrange(0, d.len() as int));
        assert forall|i: int| 0 <= i < d.len() - 1 implies #[trigger] d[i].timestamp < m by {
            assert(!exit_due(None, Some(m), ticks[i], i + 1));
        }
        if exists|j: int| 0 <= j < ticks.len() && #[trigger] ticks[j].timestamp >= m {
            let j = choose|j: int| 0 <= j < ticks.len() && #[trigger] ticks[j].timestamp >= m;
            assert(!exit_due(None, Some(m), ticks[j], j + 1));
        }
    } else {
        assert forall|i: int| 0 <= i < d.len() - 1 implies #[trigger] d[i].timestamp < m by {
            assert(!exit_due(None, Some(m), ticks[i], i + 1));
        }
    }
}

/// A new backtest limited to `n` ticks, sent any run of Pause commands, sends
/// nothing; resumed, it sends exactly `n` ticks, in the order of its source, so
/// in nondecreasing timestamp order where the source is.
pub proof fn lemma_pause_then_resume(n: usize, cmds: Seq<TickstreamCommand>, ticks: Seq<Tick>)
    requires
        n >= 1,
        ticks.len() >= n,
        forall|i: int| 0 <= i < cmds.len() ==> cmds[i] == TickstreamCommand::Pause,
        forall|i: int, j: int| 0 <= i <= j < ticks.len() ==> ticks[i].timestamp <= ticks[j].timestamp,
    ensures
        action_of(state_after(StreamState::Paused, cmds)) == PolicyAction::WaitForCommand,
        next_state(state_after(StreamState::Paused, cmds), TickstreamCommand::Resume) == StreamState::Running,
        deliveries(Some(n), None, ticks, 0).len() == n,
        forall|i: int, j: int|
            0 <= i <= j < n ==> (#[trigger] deliveries(Some(n), None, ticks, 0)[i]).timestamp
                <= (#[trigger] deliveries(Some(n), None, ticks, 0)[j]).timestamp,
{
    lemma_pauses_keep_paused(cmds);
    lemma_exit_by_count(n, ticks);
}

proof fn lemma_pauses_keep_paused(cmds: Seq<TickstreamCommand>)
    requires
        forall|i: int| 0 <= i < cmds.len() ==> cmds[i] == TickstreamCommand::Pause,
    ensures
        state_after(StreamState::Paused, cmds) == StreamState::Paused,
    decreases cmds.len(),
{
    if cmds.len() > 0 {
        let rest = cmds.drop_first();
        assert forall|i: int| 0 <= i < rest.len() implies rest[i] == TickstreamCommand::Pause by {
            assert(rest[i] == cmds[i + 1]);
        }
        lemma_pauses_keep_paused(rest);
    }
}

} // verus!
