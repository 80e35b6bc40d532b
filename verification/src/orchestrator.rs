use vstd::prelude::*;
use vstd::string::StringExecFns;

use crate::config::Config;
use crate::plan::{bind_sessions, launch_command, launch_command_sequence, plan_matches, SessionPlan};
use crate::snapshot::{
    lemma_full_poll_yields_target_new_windows, lemma_new_windows_distinct, new_windows_spec,
    WindowSnapshot,
};

verus! {

/// Milliseconds the run waits after issuing all launches, before the first
/// poll: the client's start-up grace period.
pub const WARMUP_MILLIS: u64 = 2000;

/// Milliseconds between two polls of the window registry.
pub const POLL_INTERVAL_MILLIS: u64 = 500;

/// The identifiers the operating system hands back for a successfully
/// started process.
pub struct ProcessIds {
    pub process_id: u32,
    pub thread_id: u32,
}

/// A failed attempt to start the client: the process-creation call
/// reported failure. Carries no structured detail beyond its message.
pub struct LaunchError {}

impl LaunchError {
    /// The human-readable report for a failed launch.
    pub fn message(&self) -> (text: String)
        ensures
            text@ == "Failed to open Wizard101 process"@,
    {
        String::from_str("Failed to open Wizard101 process")
    }
}

/// Where a run stands. Binding is never a resting state: the bindings are
/// computed inside the poll that completes and are consumed at once, so a
/// completed poll moves straight to `Done`.
pub enum Phase {
    Idle,
    BaselineCaptured,
    Launching,
    Polling,
    Done,
}

/// The session binder: captures a baseline snapshot, issues one launch per
/// account, polls until the expected number of matching windows exists, and
/// binds each new window to an account in configured order.
pub struct Orchestrator {
    pub config: Config,
    pub initial: WindowSnapshot,
    pub issued: usize,
    pub failures: usize,
    pub bound_sessions: usize,
    pub phase: Phase,
}

impl Orchestrator {
    /// How many sessions the run is meant to create: one per account.
    pub open spec fn target(self) -> nat {
        self.config.accounts@.len()
    }

    /// The orchestrator's invariant: the baseline holds no duplicate
    /// handle, no more launches were issued than accounts exist, failures
    /// never exceed issued launches, and polling only starts once every
    /// launch has been issued.
    pub open spec fn wf(self) -> bool {
        &&& self.initial.wf()
        &&& self.issued <= self.target()
        &&& self.failures <= self.issued
        &&& (self.phase is Polling ==> self.issued == self.target())
    }

    /// A fresh run: nothing captured, nothing launched, nothing bound.
    pub fn new(config: Config) -> (orch: Orchestrator)
        ensures
            orch.config == config,
            orch.phase is Idle,
            orch.issued == 0,
            orch.failures == 0,
            orch.bound_sessions == 0,
            orch.initial.handles@ == Seq::<u64>::empty(),
            orch.wf(),
    {
        let orch = Orchestrator {
            config,
            initial: WindowSnapshot { handles: Vec::new() },
            issued: 0,
            failures: 0,
            bound_sessions: 0,
            phase: Phase::Idle,
        };
        proof {
            assert(orch.initial.handles@.no_duplicates());
        }
        orch
    }

    /// `Idle -> BaselineCaptured`: record the pre-launch snapshot whose
    /// windows must never be acted upon.
    pub fn capture_baseline(&mut self, baseline: WindowSnapshot)
        requires
            old(self).wf(),
            old(self).phase is Idle,
            baseline.wf(),
        ensures
            final(self).config == old(self).config,
            final(self).initial == baseline,
            final(self).issued == old(self).issued,
            final(self).failures == old(self).failures,
            final(self).bound_sessions == old(self).bound_sessions,
            final(self).phase is BaselineCaptured,
            final(self).wf(),
    {
        self.initial = baseline;
        self.phase = Phase::BaselineCaptured;
    }

    /// `BaselineCaptured -> Launching`: the launch loop begins with no
    /// launch issued yet.
    pub fn start_launches(&mut self)
        requires
            old(self).wf(),
            old(self).phase is BaselineCaptured,
        ensures
            final(self).config == old(self).config,
            final(self).initial == old(self).initial,
            final(self).issued == old(self).issued,
            final(self).failures == old(self).failures,
            final(self).bound_sessions == old(self).bound_sessions,
            final(self).phase is Launching,
            final(self).wf(),
    {
        self.phase = Phase::Launching;
    }

    /// How many launches are still owed. Zero outside the launch phase.
    pub fn launches_remaining(&self) -> (remaining: usize)
        requires
            self.wf(),
        ensures
            self.phase is Launching ==> remaining == self.target() - self.issued,
            !(self.phase is Launching) ==> remaining == 0,
    {
        match self.phase {
            Phase::Launching => self.config.accounts.len() - self.issued,
            _ => 0,
        }
    }

    /// The shell command each launch runs, built from the configured path.
    pub fn next_launch_command(&self) -> (command: String)
        ensures
            command@ == launch_command_sequence(self.config.launch_path@),
    {
        launch_command(&self.config.launch_path)
    }

    /// One step of the launch loop: record the outcome of a single launch
    /// attempt. A failure is counted and otherwise ignored — the loop
    /// issues every remaining launch regardless. After the last attempt
    /// the run moves on to polling.
    pub fn record_launch(&mut self, outcome: &Result<ProcessIds, LaunchError>)
        requires
            old(self).wf(),
            old(self).phase is Launching,
            old(self).issued < old(self).target(),
        ensures
            final(self).config == old(self).config,
            final(self).initial == old(self).initial,
            final(self).bound_sessions == old(self).bound_sessions,
            final(self).issued == old(self).issued + 1,
            (*outcome) is Ok ==> final(self).failures == old(self).failures,
            (*outcome) is Err ==> final(self).failures == old(self).failures + 1,
            final(self).issued < final(self).target() ==> final(self).phase is Launching,
            final(self).issued == final(self).target() ==> final(self).phase is Polling,
            final(self).wf(),
    {
        let target = self.config.accounts.len();
        self.issued = self.issued + 1;
        if outcome.is_err() {
            self.failures = self.failures + 1;
        }
        if self.issued == target {
            self.phase = Phase::Polling;
        }
    }

    /// One poll: compare the current snapshot's count against baseline
    /// count plus target. Short of the mark, nothing changes and the caller
    /// sleeps and retries — with no bound, so a shortfall that never heals
    /// stalls the run. At the mark, the new windows are computed by
    /// difference, bound positionally to the accounts, and returned as
    /// plans; the run is then done, with exactly one plan per account.
    pub fn poll(&mut self, current: &WindowSnapshot) -> (outcome: Option<Vec<SessionPlan>>)
        requires
            old(self).wf(),
            old(self).phase is Polling,
            current.wf(),
            current.handles@.len() == old(self).initial.handles@.len() + old(self).target()
                ==> new_windows_spec(current.handles@, old(self).initial.handles@).len()
                <= old(self).target(),
        ensures
            final(self).config == old(self).config,
            final(self).initial == old(self).initial,
            final(self).issued == old(self).issued,
            final(self).failures == old(self).failures,
            final(self).wf(),
            current.handles@.len() != old(self).initial.handles@.len() + old(self).target()
                ==> {
                &&& outcome is None
                &&& final(self).phase is Polling
                &&& final(self).bound_sessions == old(self).bound_sessions
            },
            current.handles@.len() == old(self).initial.handles@.len() + old(self).target()
                ==> {
                &&& final(self).phase is Done
                &&& final(self).bound_sessions == old(self).target()
                &&& new_windows_spec(current.handles@, old(self).initial.handles@).no_duplicates()
                &&& outcome matches Some(plans) && plans@.len() == old(self).target()
                    && forall|i: int|
                    0 <= i < plans@.len() ==> plan_matches(
                        #[trigger] plans@[i],
                        old(self).config.accounts@[i],
                        new_windows_spec(current.handles@, old(self).initial.handles@)[i],
                    )
            },
    {
        let cur = current.count();
        let base = self.initial.count();
        let target = self.config.accounts.len();
        if cur >= base && cur - base == target {
            let fresh = current.new_windows(&self.initial);
            proof {
                lemma_full_poll_yields_target_new_windows(
                    current.handles@,
                    self.initial.handles@,
                    self.target(),
                );
                lemma_new_windows_distinct(current.handles@, self.initial.handles@);
            }
            let plans = bind_sessions(&self.config.accounts, &fresh);
            self.bound_sessions = plans.len();
            self.phase = Phase::Done;
            Some(plans)
        } else {
            None
        }
    }
}

/// The stall law: when at most one new window can appear per successful
/// launch and at least one of the `target` launches failed, the polled
/// count never reaches baseline plus target — the poll's exit condition is
/// unsatisfiable and the run stalls.
pub proof fn lemma_poll_stalls_after_failed_launches(
    baseline_count: nat,
    target: nat,
    failed: nat,
    current_count: nat,
)
    requires
        0 < failed <= target,
        current_count <= baseline_count + (target - failed),
    ensures
        current_count != baseline_count + target,
{
}

} // verus!
