//! The parent-liveness lifecycle monitor.
//!
//! The daemon stays alive while its parent process runs; once the parent is
//! gone, an idle countdown starts, and only a sustained absence shuts the
//! daemon down. The decision is a pure step over (last seen alive, exited,
//! now); the process table and the clock come in through the platform
//! boundary, and the polling loop lives in the binary.

use vstd::prelude::*;
use crate::platform;
use crate::config;

verus! {

/// Mathematical image of a `ParentMonitor` (the process-table handle is
/// opaque and carries no state of the model).
pub struct MonitorView {
    pub parent_pid: u32,
    pub last_parent_alive_ms: i64,
    pub parent_exited: bool,
    pub idle_timeout_ms: i64,
}

impl MonitorView {
    /// Timestamps are non-negative and the timeout is positive.
    pub open spec fn wf(self) -> bool {
        0 <= self.last_parent_alive_ms && 0 < self.idle_timeout_ms
    }
}

/// The pure poll step: what one observation of the parent does to the
/// monitor, and whether it triggers shutdown.
pub open spec fn spec_monitor_step(m: MonitorView, alive: bool, now_ms: i64) -> (MonitorView, bool) {
    if alive {
        (
            MonitorView { last_parent_alive_ms: now_ms, parent_exited: false, ..m },
            false,
        )
    } else {
        (
            MonitorView { parent_exited: true, ..m },
            now_ms - m.last_parent_alive_ms >= m.idle_timeout_ms,
        )
    }
}

/// Parent monitor state: the watched process, when it was last seen alive,
/// and whether the countdown is running.
pub struct ParentMonitor {
    parent_pid: u32,
    system: sysinfo::System,
    last_parent_alive_ms: i64,
    parent_exited: bool,
    idle_timeout_ms: i64,
}

impl View for ParentMonitor {
    type V = MonitorView;

    closed spec fn view(&self) -> MonitorView {
        MonitorView {
            parent_pid: self.parent_pid,
            last_parent_alive_ms: self.last_parent_alive_ms,
            parent_exited: self.parent_exited,
            idle_timeout_ms: self.idle_timeout_ms,
        }
    }
}

impl ParentMonitor {
    /// A new monitor for the given parent: the parent counts as alive now,
    /// and the countdown is not running.
    pub fn new(parent_pid: u32) -> (r: ParentMonitor)
        ensures
            r@.wf(),
            r@.parent_pid == parent_pid,
            !r@.parent_exited,
            r@.idle_timeout_ms == config::IDLE_TIMEOUT_SECS * 1000,
    {
        let now = platform::now_millis();
        ParentMonitor {
            parent_pid,
            system: platform::system_new(),
            last_parent_alive_ms: now,
            parent_exited: false,
            idle_timeout_ms: (config::IDLE_TIMEOUT_SECS * 1000) as i64,
        }
    }

    /// Whether the idle countdown is running: the last poll saw the parent
    /// gone.
    pub fn parent_exited(&self) -> (r: bool)
        ensures
            r == self@.parent_exited,
    {
        self.parent_exited
    }

    /// Ask the process table whether the parent still exists. The answer
    /// depends on the machine; the monitor's own state is untouched.
    pub fn is_parent_alive(&mut self) -> (r: bool)
        ensures
            final(self)@ == old(self)@,
    {
        let pid = self.parent_pid;
        platform::system_refresh_pid(&mut self.system, pid);
        platform::system_pid_known(&self.system, pid)
    }

    /// Apply one observation: a live parent resets the countdown; an absent
    /// parent starts (or continues) it, and shutdown triggers exactly when
    /// the time since the parent was last seen alive reaches the idle
    /// timeout.
    pub fn monitor_step(&mut self, alive: bool, now_ms: i64) -> (shutdown: bool)
        requires
            old(self)@.wf(),
            0 <= now_ms,
        ensures
            final(self)@.wf(),
            (final(self)@, shutdown) == spec_monitor_step(old(self)@, alive, now_ms),
    {
        if alive {
            self.last_parent_alive_ms = now_ms;
            self.parent_exited = false;
            false
        } else {
            self.parent_exited = true;
            now_ms - self.last_parent_alive_ms >= self.idle_timeout_ms
        }
    }

    /// Poll once: observe the process table and the clock, and apply the
    /// step. The observations are the machine's; whatever they were, the
    /// state and the verdict follow the pure step for them.
    pub fn should_shutdown(&mut self) -> (shutdown: bool)
        requires
            old(self)@.wf(),
        ensures
            final(self)@.wf(),
            exists|alive: bool, now_ms: i64|
                0 <= now_ms && (final(self)@, shutdown) == #[trigger] spec_monitor_step(
                    old(self)@,
                    alive,
                    now_ms,
                ),
            shutdown ==> final(self)@.parent_exited,
    {
        let alive = self.is_parent_alive();
        let now = platform::now_millis();
        let r = self.monitor_step(alive, now);
        proof {
            assert((final(self)@, r) == spec_monitor_step(old(self)@, alive, now));
        }
        r
    }
}

/// The monitor state after the first `i` polls of a run, starting from
/// `m0`. A poll is an observation (alive, now).
pub open spec fn spec_monitor_after(m0: MonitorView, polls: Seq<(bool, i64)>, i: int) -> MonitorView
    decreases i,
{
    if i <= 0 {
        m0
    } else {
        spec_monitor_step(spec_monitor_after(m0, polls, i - 1), polls[i - 1].0, polls[i - 1].1).0
    }
}

/// Whether the `i`-th poll of the run (counting from zero) triggers
/// shutdown.
pub open spec fn spec_monitor_fires(m0: MonitorView, polls: Seq<(bool, i64)>, i: int) -> bool {
    spec_monitor_step(spec_monitor_after(m0, polls, i), polls[i].0, polls[i].1).1
}

/// The idle countdown law. In any run of polls: a poll that sees the
/// parent alive never triggers shutdown; and after the parent was last
/// seen alive at poll `k`, a later poll `j` triggers shutdown exactly when
/// the time elapsed since poll `k` has reached the idle timeout — never
/// merely because the parent is momentarily gone.
pub proof fn lemma_idle_countdown(m0: MonitorView, polls: Seq<(bool, i64)>, k: int, j: int)
    requires
        0 <= k < j < polls.len(),
        polls[k].0,
        forall|i: int| k < i <= j ==> !(#[trigger] polls[i].0),
    ensures
        forall|i: int|
            0 <= i < polls.len() && #[trigger] polls[i].0 ==> !spec_monitor_fires(m0, polls, i),
        spec_monitor_fires(m0, polls, j) <==> polls[j].1 - polls[k].1 >= m0.idle_timeout_ms,
        spec_monitor_after(m0, polls, j + 1).parent_exited,
{
    assert forall|i: int|
        0 <= i < polls.len() && #[trigger] polls[i].0 implies !spec_monitor_fires(
        m0,
        polls,
        i,
    ) by {};
    lemma_last_alive_sticks(m0, polls, k, j);
}

/// After an alive poll at `k` followed only by absent polls, the recorded
/// last-alive instant stays the instant of poll `k`, the countdown is
/// marked as running, and the timeout is untouched.
proof fn lemma_last_alive_sticks(m0: MonitorView, polls: Seq<(bool, i64)>, k: int, j: int)
    requires
        0 <= k < j < polls.len(),
        polls[k].0,
        forall|i: int| k < i <= j ==> !(#[trigger] polls[i].0),
    ensures
        spec_monitor_after(m0, polls, j).last_parent_alive_ms == polls[k].1,
        spec_monitor_after(m0, polls, j).idle_timeout_ms == m0.idle_timeout_ms,
        spec_monitor_after(m0, polls, j + 1).parent_exited,
        spec_monitor_fires(m0, polls, j) <==> polls[j].1 - polls[k].1 >= m0.idle_timeout_ms,
    decreases j,
{
    if j == k + 1 {
        lemma_timeout_constant(m0, polls, k + 1);
    } else {
        lemma_last_alive_sticks(m0, polls, k, j - 1);
    }
}

/// The idle timeout is configuration: no poll changes it.
proof fn lemma_timeout_constant(m0: MonitorView, polls: Seq<(bool, i64)>, i: int)
    requires
        0 <= i,
    ensures
        spec_monitor_after(m0, polls, i).idle_timeout_ms == m0.idle_timeout_ms,
    decreases i,
{
    if i > 0 {
        lemma_timeout_constant(m0, polls, i - 1);
    }
}

} // verus!
