use vstd::prelude::*;
use crate::config::{
    CheckSpec, ConfigError, Interval, MAX_INTERVAL_DIGITS, digit_count, parse_interval, parse_interval_spec,
};
use crate::metrics::{MetricsStore, after_record};
use crate::probe::{CheckResult, ProbeOutcome, PROBE_TIMEOUT_MS, classify, spec_classify};
use crate::remediation::{commands_of, remediation_commands};

verus! {

/// Where the cycle stands.
#[derive(Clone, Copy, Debug, PartialEq, Eq, Structural)]
pub enum Phase {
    /// The check at this position is to be probed.
    Probing(usize),
    /// The check at this position failed and its remediation is to run.
    Remediating(usize),
    /// Every check of the cycle is done; the pause between cycles is due.
    Sleeping,
}

/// What the caller is asked to do next.
#[derive(Debug)]
pub enum Action {
    /// Issue one GET to `url`, bounded by `timeout_ms`.
    Probe { url: String, timeout_ms: u64 },
    /// Run these shell commands in order, ignoring how they end.
    Remediate { commands: Vec<String> },
    /// Wait this long before the next cycle.
    Sleep { interval: Interval },
}

/// What the caller reports back once an action is done.
#[derive(Clone, Copy, Debug, PartialEq, Eq, Structural)]
pub enum Event {
    /// The probe ended with `outcome` after `elapsed_ms`.
    Probed { outcome: ProbeOutcome, elapsed_ms: u64 },
    /// The remediation commands were run, whatever their exit status.
    Remediated,
    /// The pause between cycles is over.
    Slept,
}

/// Drives the check cycle: probe each check in order, record its result,
/// remediate failures, then pause.
#[derive(Debug)]
pub struct Scheduler {
    host: String,
    checks: Vec<CheckSpec>,
    interval: Interval,
    phase: Phase,
}

/// The phase that follows the check at `next - 1`.
pub open spec fn phase_from(next: int, len: int) -> Phase {
    if 0 <= next < len {
        Phase::Probing(next as usize)
    } else {
        Phase::Sleeping
    }
}

impl Scheduler {
    #[verifier::type_invariant]
    spec fn well_formed(&self) -> bool {
        &&& self.checks@.len() <= usize::MAX
        &&& match self.phase {
            Phase::Probing(i) => i < self.checks.len(),
            Phase::Remediating(i) => i < self.checks.len(),
            Phase::Sleeping => true,
        }
    }

    /// The position in the current phase names a configured check, and the
    /// list of checks fits in memory.
    pub open spec fn phase_in_range(&self) -> bool {
        &&& self.checks_spec().len() <= usize::MAX
        &&& match self.phase_spec() {
            Phase::Probing(i) => i < self.checks_spec().len(),
            Phase::Remediating(i) => i < self.checks_spec().len(),
            Phase::Sleeping => true,
        }
    }

    pub closed spec fn host_spec(&self) -> String {
        self.host
    }

    pub closed spec fn checks_spec(&self) -> Seq<CheckSpec> {
        self.checks@
    }

    pub closed spec fn interval_spec(&self) -> Interval {
        self.interval
    }

    pub closed spec fn phase_spec(&self) -> Phase {
        self.phase
    }

    /// A scheduler at the start of its first cycle.
    pub fn new(host: String, checks: Vec<CheckSpec>, interval: Interval) -> (s: Scheduler)
        ensures
            s.host_spec() == host,
            s.checks_spec() == checks@,
            s.interval_spec() == interval,
            s.phase_spec() == phase_from(0, checks@.len() as int),
            s.phase_in_range(),
    {
        let phase = if checks.len() > 0 {
            Phase::Probing(0)
        } else {
            Phase::Sleeping
        };
        Scheduler { host, checks, interval, phase }
    }

    /// A scheduler whose interval is read from its configured text.
    pub fn from_config(host: String, interval_text: &str, checks: Vec<CheckSpec>) -> (r: Result<Scheduler, ConfigError>)
        ensures
            digit_count(interval_text@) > MAX_INTERVAL_DIGITS
                ==> r == Err::<Scheduler, ConfigError>(ConfigError::InvalidInterval),
            digit_count(interval_text@) <= MAX_INTERVAL_DIGITS ==> match parse_interval_spec(interval_text@) {
                Some(iv) => r matches Ok(s) && s.host_spec() == host && s.checks_spec() == checks@
                    && s.interval_spec() == iv && s.phase_spec() == phase_from(0, checks@.len() as int)
                    && s.phase_in_range(),
                None => r == Err::<Scheduler, ConfigError>(ConfigError::InvalidInterval),
            },
    {
        match parse_interval(interval_text) {
            Ok(interval) => Ok(Scheduler::new(host, checks, interval)),
            Err(e) => Err(e),
        }
    }

    /// The host label under which results are recorded.
    pub fn host(&self) -> (r: &String)
        ensures
            *r == self.host_spec(),
    {
        &self.host
    }

    /// The configured check at `index`, if there is one.
    pub fn check(&self, index: usize) -> (r: Option<&CheckSpec>)
        ensures
            index < self.checks_spec().len() ==> r == Some(&self.checks_spec()[index as int]),
            index >= self.checks_spec().len() ==> r is None,
    {
        if index < self.checks.len() {
            Some(&self.checks[index])
        } else {
            None
        }
    }

    /// Number of configured checks.
    pub fn check_count(&self) -> (n: usize)
        ensures
            n == self.checks_spec().len(),
    {
        self.checks.len()
    }

    /// The current phase.
    pub fn phase(&self) -> (r: Phase)
        ensures
            r == self.phase_spec(),
            self.phase_in_range(),
    {
        proof {
            use_type_invariant(self);
        }
        self.phase
    }

    /// The action that the current phase calls for.
    pub fn next_action(&self) -> (a: Action)
        ensures
            match self.phase_spec() {
                Phase::Probing(i) => a matches Action::Probe { url, timeout_ms }
                    && url == self.checks_spec()[i as int].url && timeout_ms == PROBE_TIMEOUT_MS,
                Phase::Remediating(i) => a matches Action::Remediate { commands }
                    && commands.deep_view() == commands_of(self.checks_spec()[i as int].remediation@),
                Phase::Sleeping => a matches Action::Sleep { interval } && interval == self.interval_spec(),
            },
            self.phase_in_range(),
    {
        proof {
            use_type_invariant(self);
        }
        match self.phase {
            Phase::Probing(i) => Action::Probe { url: self.checks[i].url.clone(), timeout_ms: PROBE_TIMEOUT_MS },
            Phase::Remediating(i) => Action::Remediate {
                commands: remediation_commands(&self.checks[i].remediation),
            },
            Phase::Sleeping => Action::Sleep { interval: self.interval },
        }
    }

    /// Takes in what the caller reports and moves to the next phase. A probe
    /// result is recorded in `store` under (host, check name); a failure with
    /// commands to run leads to remediation. No other event touches `store`,
    /// and an event that does not fit the phase changes nothing.
    /// Returns the result that was recorded, if one was.
    pub fn handle(&mut self, store: &mut MetricsStore, event: Event) -> (recorded: Option<CheckResult>)
        ensures
            final(self).host_spec() == old(self).host_spec(),
            final(self).checks_spec() == old(self).checks_spec(),
            final(self).interval_spec() == old(self).interval_spec(),
            old(self).phase_in_range(),
            final(self).phase_in_range(),
            match (old(self).phase_spec(), event) {
                (Phase::Probing(i), Event::Probed { outcome, elapsed_ms }) => {
                    let check = old(self).checks_spec()[i as int];
                    let result = spec_classify(check.expect_status, outcome, elapsed_ms);
                    &&& recorded == Some(result)
                    &&& final(store).rows() == after_record(
                        old(store).rows(),
                        old(self).host_spec(),
                        check.name,
                        result,
                    )
                    &&& final(self).phase_spec() == if !result.is_up
                        && commands_of(check.remediation@).len() > 0 {
                        Phase::Remediating(i)
                    } else {
                        phase_from(i + 1, old(self).checks_spec().len() as int)
                    }
                },
                (Phase::Remediating(i), Event::Remediated) => {
                    &&& recorded is None
                    &&& final(store).rows() == old(store).rows()
                    &&& final(self).phase_spec() == phase_from(i + 1, old(self).checks_spec().len() as int)
                },
                (Phase::Sleeping, Event::Slept) => {
                    &&& recorded is None
                    &&& final(store).rows() == old(store).rows()
                    &&& final(self).phase_spec() == phase_from(0, old(self).checks_spec().len() as int)
                },
                _ => {
                    &&& recorded is None
                    &&& final(store).rows() == old(store).rows()
                    &&& final(self).phase_spec() == old(self).phase_spec()
                },
            },
    {
        proof {
            use_type_invariant(&*self);
        }
        let len = self.checks.len();
        let mut recorded: Option<CheckResult> = None;
        let next: Phase = match (self.phase, event) {
            (Phase::Probing(i), Event::Probed { outcome, elapsed_ms }) => {
                let check = &self.checks[i];
                let result: CheckResult = classify(check.expect_status, outcome, elapsed_ms);
                store.record(&self.host, &check.name, &result);
                let commands = remediation_commands(&check.remediation);
                recorded = Some(result);
                if !result.is_up && commands.len() > 0 {
                    Phase::Remediating(i)
                } else if i + 1 < len {
                    Phase::Probing(i + 1)
                } else {
                    Phase::Sleeping
                }
            },
            (Phase::Remediating(i), Event::Remediated) => {
                if i + 1 < len {
                    Phase::Probing(i + 1)
                } else {
                    Phase::Sleeping
                }
            },
            (Phase::Sleeping, Event::Slept) => {
                if len > 0 {
                    Phase::Probing(0)
                } else {
                    Phase::Sleeping
                }
            },
            (p, _) => p,
        };
        self.phase = next;
        proof {
            use_type_invariant(&*self);
        }
        recorded
    }
}

} // verus!
