//! The sans-I/O step kernel: it decides each directive of one claim, execute, settle step
//! and learns what happened from notices; it performs nothing itself.
use crate::contract::{Claim, Outcome, Pact, Retainer};
use vstd::prelude::*;

verus! {

/// What the kernel asks its runtime to do next.
#[derive(Debug, Clone)]
#[non_exhaustive]
pub enum Directive {
    /// Claim a pact from the runtime's dockets.
    Claim,
    /// Execute the claimed pact.
    Execute(Pact),
    /// Settle the claim held by the retainer with the outcome.
    Settle(Retainer, Outcome),
    /// Nothing to do until a notice arrives (or the step is over).
    Idle,
}

/// What the runtime reports back after performing a directive.
#[derive(Debug, Clone)]
#[non_exhaustive]
pub enum Notice {
    /// The claim was performed; it found this claim, or nothing.
    Claimed(Option<Claim>),
    /// The execution concluded with this outcome.
    Executed(Outcome),
    /// The execution infrastructure failed; no outcome exists.
    ExecutionFailed,
    /// The settlement was recorded.
    Settled,
}

/// How a step ended.
#[derive(Debug, Clone, Copy, PartialEq, Eq, Structural)]
#[non_exhaustive]
pub enum StepResult {
    /// Nothing was claimable.
    Idle,
    /// The claimed pact was settled with the outcome.
    Settled(Outcome),
    /// Execution failed; the claim was left unsettled to lapse and be reclaimed.
    Unsettled,
}

/// Where the kernel stands within one step.
#[derive(Debug, Clone)]
pub enum Phase {
    /// Nothing has happened yet.
    Start,
    /// A claim was asked for.
    Claiming,
    /// A claim was found; its pact is to be executed.
    Claimed(Claim),
    /// The pact is being executed under the retainer.
    Executing(Retainer),
    /// The execution concluded; the claim is to be settled.
    Executed(Retainer, Outcome),
    /// The settlement with the outcome was asked for.
    Settling(Outcome),
    /// The step is over.
    Done(StepResult),
}

/// The directive the kernel issues from `phase`, and the phase it moves to.
pub open spec fn poll_step(phase: Phase) -> (Directive, Phase) {
    match phase {
        Phase::Start => (Directive::Claim, Phase::Claiming),
        Phase::Claimed(claim) => (Directive::Execute(claim.pact), Phase::Executing(claim.retainer)),
        Phase::Executed(retainer, outcome) => (
            Directive::Settle(retainer, outcome),
            Phase::Settling(outcome),
        ),
        _ => (Directive::Idle, phase),
    }
}

/// The phase the kernel moves to from `phase` on `notice`; a notice that answers no pending
/// directive leaves the phase unchanged.
pub open spec fn notice_step(phase: Phase, notice: Notice) -> Phase {
    match (phase, notice) {
        (Phase::Claiming, Notice::Claimed(None)) => Phase::Done(StepResult::Idle),
        (Phase::Claiming, Notice::Claimed(Some(claim))) => Phase::Claimed(claim),
        (Phase::Executing(retainer), Notice::Executed(outcome)) => Phase::Executed(
            retainer,
            outcome,
        ),
        (Phase::Executing(_), Notice::ExecutionFailed) => Phase::Done(StepResult::Unsettled),
        (Phase::Settling(outcome), Notice::Settled) => Phase::Done(StepResult::Settled(outcome)),
        _ => phase,
    }
}

/// The result of the step, once the kernel has reached one.
pub open spec fn phase_result(phase: Phase) -> Option<StepResult> {
    match phase {
        Phase::Done(result) => Some(result),
        _ => None,
    }
}

/// A step that finds nothing to claim ends idle, after issuing only the claim.
pub proof fn law_nothing_claimed_is_idle()
    ensures
        poll_step(Phase::Start) == (Directive::Claim, Phase::Claiming),
        notice_step(Phase::Claiming, Notice::Claimed(None)) == Phase::Done(StepResult::Idle),
{
}

/// A step settles with exactly the outcome its execution concluded with, by the retainer of
/// its claim: claim, then execute the claimed pact, then settle it, in that order.
pub proof fn law_step_settles_the_executed_outcome(claim: Claim, outcome: Outcome)
    ensures
        poll_step(Phase::Start) == (Directive::Claim, Phase::Claiming),
        notice_step(Phase::Claiming, Notice::Claimed(Some(claim))) == Phase::Claimed(claim),
        poll_step(Phase::Claimed(claim)) == (
            Directive::Execute(claim.pact),
            Phase::Executing(claim.retainer),
        ),
        notice_step(Phase::Executing(claim.retainer), Notice::Executed(outcome)) == Phase::Executed(
            claim.retainer,
            outcome,
        ),
        poll_step(Phase::Executed(claim.retainer, outcome)) == (
            Directive::Settle(claim.retainer, outcome),
            Phase::Settling(outcome),
        ),
        notice_step(Phase::Settling(outcome), Notice::Settled) == Phase::Done(
            StepResult::Settled(outcome),
        ),
{
}

/// An execution failure settles nothing: the step ends unsettled, leaving the claim to lapse
/// and be reclaimed.
pub proof fn law_execution_failure_settles_nothing(retainer: Retainer)
    ensures
        notice_step(Phase::Executing(retainer), Notice::ExecutionFailed) == Phase::Done(
            StepResult::Unsettled,
        ),
{
}

/// A finished step stays finished: the kernel issues nothing more and ignores every notice.
pub proof fn law_done_is_final(result: StepResult, notice: Notice)
    ensures
        poll_step(Phase::Done(result)) == (Directive::Idle, Phase::Done(result)),
        notice_step(Phase::Done(result), notice) == Phase::Done(result),
        phase_result(Phase::Done(result)) == Some(result),
{
}

/// The kernel settles only with an outcome the runtime reported: a settle directive is issued
/// only from an executed phase, and an executed phase is reached only on an executed notice.
pub proof fn law_settle_only_after_execution(phase: Phase, notice: Notice)
    ensures
        poll_step(phase).0 matches Directive::Settle(retainer, outcome) ==> phase == Phase::Executed(
            retainer,
            outcome,
        ),
        notice_step(phase, notice) matches Phase::Executed(retainer, outcome) ==> (phase
            == Phase::Executed(retainer, outcome) || (phase == Phase::Executing(retainer)
            && notice == Notice::Executed(outcome))),
{
}

/// Polling never moves a phase that awaits a notice: while a claim, an execution or a
/// settlement is pending, or once the step is over, a poll asks for nothing and changes
/// nothing; and no poll ends a step.
pub proof fn law_poll_waits_for_notices(phase: Phase)
    ensures
        (phase is Claiming || phase is Executing || phase is Settling || phase is Done) ==> (
        poll_step(phase).0 is Idle && poll_step(phase).1 == phase),
        poll_step(phase).1 is Done ==> poll_step(phase).1 == phase,
{
}

/// A step is settled with `o` only from the settling phase for `o`, on the notice that the
/// settlement was recorded.
pub proof fn law_settled_only_on_settled_notice(phase: Phase, notice: Notice, o: Outcome)
    ensures
        (notice_step(phase, notice) == Phase::Done(StepResult::Settled(o)) && phase
            != Phase::Done(StepResult::Settled(o))) ==> (phase == Phase::Settling(o)
            && notice is Settled),
{
}

/// The sans-I/O lifecycle kernel of one step.
pub struct Kernel {
    phase: Phase,
}

impl Kernel {
    /// Where the kernel stands.
    pub closed spec fn phase(&self) -> Phase {
        self.phase
    }

    /// A kernel at the start of a step.
    pub fn new() -> (k: Kernel)
        ensures
            k.phase() is Start,
    {
        Kernel { phase: Phase::Start }
    }

    /// The next directive; the kernel moves past it.
    pub fn poll(&mut self) -> (d: Directive)
        ensures
            (d, final(self).phase()) == poll_step(old(self).phase()),
            // A phase that awaits a notice (a claim, an execution, a settlement, or nothing
            // at all once the step is over) is left where it is, and nothing is asked.
            (old(self).phase() is Claiming || old(self).phase() is Executing
                || old(self).phase() is Settling || old(self).phase() is Done) ==> (d is Idle
                && final(self).phase() == old(self).phase()),
            // Polling never ends a step.
            final(self).phase() is Done ==> final(self).phase() == old(self).phase(),
    {
        let mut phase = Phase::Start;
        core::mem::swap(&mut phase, &mut self.phase);
        match phase {
            Phase::Start => {
                self.phase = Phase::Claiming;
                Directive::Claim
            },
            Phase::Claimed(claim) => {
                self.phase = Phase::Executing(claim.retainer);
                Directive::Execute(claim.pact)
            },
            Phase::Executed(retainer, outcome) => {
                self.phase = Phase::Settling(outcome);
                Directive::Settle(retainer, outcome)
            },
            other => {
                self.phase = other;
                Directive::Idle
            },
        }
    }

    /// Learn what the runtime did.
    pub fn on_event(&mut self, notice: Notice)
        ensures
            final(self).phase() == notice_step(old(self).phase(), notice),
            // A step ends only on the notice that answers what it awaits: settled with `o`
            // only when the settlement with `o` was recorded, idle only when the claim found
            // nothing, unsettled only when the execution failed.
            final(self).phase() != old(self).phase() ==> match final(self).phase() {
                Phase::Done(StepResult::Settled(o)) => old(self).phase() == Phase::Settling(o)
                    && notice is Settled,
                Phase::Done(StepResult::Idle) => old(self).phase() is Claiming && notice
                    == Notice::Claimed(None),
                Phase::Done(StepResult::Unsettled) => old(self).phase() is Executing
                    && notice is ExecutionFailed,
                _ => true,
            },
    {
        let mut phase = Phase::Start;
        core::mem::swap(&mut phase, &mut self.phase);
        self.phase = match (phase, notice) {
            (Phase::Claiming, Notice::Claimed(None)) => Phase::Done(StepResult::Idle),
            (Phase::Claiming, Notice::Claimed(Some(claim))) => Phase::Claimed(claim),
            (Phase::Executing(retainer), Notice::Executed(outcome)) => Phase::Executed(
                retainer,
                outcome,
            ),
            (Phase::Executing(_), Notice::ExecutionFailed) => Phase::Done(StepResult::Unsettled),
            (Phase::Settling(outcome), Notice::Settled) => Phase::Done(
                StepResult::Settled(outcome),
            ),
            (other, _) => other,
        };
    }

    /// The result of the step, once it is over.
    pub fn result(&self) -> (r: Option<StepResult>)
        ensures
            r == phase_result(self.phase()),
    {
        match &self.phase {
            Phase::Done(result) => Some(*result),
            _ => None,
        }
    }
}

} // verus!
