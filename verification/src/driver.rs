//! The mechanical runtime loop: it performs the directives the kernel issues and feeds back
//! what happened, deciding no lifecycle outcome itself.
use crate::contract::{docket_names, Claim, Outcome, Registry, RegistryCall, Retainer, Timestamp};
use crate::executor::{Execution, Executor};
use crate::kernel::{Directive, Kernel, Notice, Phase, StepResult};
use std::time::{Duration, SystemTime, UNIX_EPOCH};
use vstd::prelude::*;
use vstd::string::{to_string_from_display_ensures, StringExecFns};

verus! {

/// The wall-clock type of std, carried through opaquely.
#[verifier::external_type_specification]
#[verifier::external_body]
pub struct ExSystemTime(SystemTime);

/// Reads the wall clock with `SystemTime::now`. Nothing is stated of the value: it is the time.
#[verifier::external_body]
fn system_now() -> SystemTime {
    SystemTime::now()
}

/// `SystemTime::duration_since(UNIX_EPOCH)`, with its error (a clock set before the epoch)
/// turned into `None`. Nothing is stated of the duration: it depends on the clock read.
#[verifier::external_body]
fn since_epoch(t: SystemTime) -> Option<Duration> {
    t.duration_since(UNIX_EPOCH).ok()
}

/// `Duration::as_millis`. Nothing is stated of the value: the duration is opaque here.
#[verifier::external_body]
fn whole_millis(d: Duration) -> u128 {
    d.as_millis()
}

/// The instant `elapsed` milliseconds after the Unix epoch: `u64::MAX` where they do not fit
/// in a `u64`, and the epoch itself when no elapsed time is known (a clock set before it).
pub fn timestamp_since_epoch(elapsed: Option<u128>) -> (t: Timestamp)
    ensures
        t.spec_millis() == match elapsed {
            Some(millis) => if millis > u64::MAX {
                u64::MAX
            } else {
                millis as u64
            },
            None => 0,
        },
{
    match elapsed {
        Some(millis) => {
            if millis > u64::MAX as u128 {
                Timestamp::from_millis(u64::MAX)
            } else {
                Timestamp::from_millis(millis as u64)
            }
        },
        None => Timestamp::from_millis(0),
    }
}

/// Read the current wall-clock time as a [`Timestamp`] (see [`timestamp_since_epoch`]).
/// Nothing is stated of the value: it is the time. Reading the clock is a runtime concern,
/// so it lives here and never in the contract.
pub fn current_time() -> Timestamp {
    let elapsed = match since_epoch(system_now()) {
        Some(duration) => Some(whole_millis(duration)),
        None => None,
    };
    timestamp_since_epoch(elapsed)
}

/// `t` is an instant a call of [`current_time`] returned: a reading of the wall clock, not an
/// instant fixed or computed by the caller.
pub closed spec fn read_from_clock(t: Timestamp) -> bool {
    call_ensures(current_time, (), t)
}

/// One mechanical driver step result.
#[derive(Debug, Clone, Copy, PartialEq, Eq, Structural)]
#[non_exhaustive]
pub enum Step {
    /// No pact was available from the configured dockets.
    Idle,
    /// A claimed pact was fulfilled.
    Fulfilled,
    /// A claimed pact was breached.
    Breached,
}

/// Error returned by a driver step.
#[derive(Debug, Clone, PartialEq, Eq)]
#[non_exhaustive]
pub enum DriverError<RegistryError, ExecutorError> {
    /// Registry operation failed.
    Registry(RegistryError),
    /// Executor infrastructure failed; the claim was left unsettled to lapse and be
    /// reclaimed (no settlement was recorded).
    Executor(ExecutorError),
}

impl<RegistryError, ExecutorError> DriverError<RegistryError, ExecutorError> {
    /// The message describing this error: which side failed, then the source error's message.
    pub fn to_string(&self) -> (s: String) where
        RegistryError: core::fmt::Display,
        ExecutorError: core::fmt::Display,

        ensures
            match self {
                DriverError::Registry(e) => exists|m: String|
                    to_string_from_display_ensures(e, m) && s@ == "registry operation failed: "@
                        + m@,
                DriverError::Executor(e) => exists|m: String|
                    to_string_from_display_ensures(e, m) && s@ == "executor infrastructure failed: "@
                        + m@,
            },
    {
        match self {
            DriverError::Registry(e) => {
                let m = e.to_string();
                "registry operation failed: ".to_owned().concat(m.as_str())
            },
            DriverError::Executor(e) => {
                let m = e.to_string();
                "executor infrastructure failed: ".to_owned().concat(m.as_str())
            },
        }
    }

    /// The message of the underlying registry or executor error.
    pub fn source(&self) -> (s: Option<String>) where
        RegistryError: core::fmt::Display,
        ExecutorError: core::fmt::Display,

        ensures
            s matches Some(m) && match self {
                DriverError::Registry(e) => to_string_from_display_ensures(e, m),
                DriverError::Executor(e) => to_string_from_display_ensures(e, m),
            },
    {
        match self {
            DriverError::Registry(e) => Some(e.to_string()),
            DriverError::Executor(e) => Some(e.to_string()),
        }
    }
}

/// The step a settled outcome ends in.
pub open spec fn step_for(outcome: Outcome) -> Step {
    match outcome {
        Outcome::Fulfilled => Step::Fulfilled,
        Outcome::Breached => Step::Breached,
    }
}

/// What `call` returned, when it is the settlement of `outcome` by `retainer`: `fulfill` for a
/// fulfilled outcome, `breach` for a breached one.
pub open spec fn settlement_result<E>(call: RegistryCall<E>, outcome: Outcome, retainer: Retainer) -> Option<
    Result<(), E>,
> {
    match (call, outcome) {
        (RegistryCall::Fulfill { retainer: held, result }, Outcome::Fulfilled) => if held
            == retainer {
            Some(result)
        } else {
            None
        },
        (RegistryCall::Breach { retainer: held, result }, Outcome::Breached) => if held
            == retainer {
            Some(result)
        } else {
            None
        },
        _ => None,
    }
}

/// What one step did, read against what it returned. `calls` are the registry calls of the
/// step and `executions` the executions it asked for, in order:
/// - first, one `claim` from `dockets`; an error from it is returned as it came, and nothing
///   follows; no claim ends the step idle, and nothing follows;
/// - otherwise one execution of the claimed pact; an error from it is returned as it came and
///   nothing is settled, leaving the claim to lapse;
/// - otherwise one settlement of the executed outcome by the claim's retainer (`fulfill` or
///   `breach`), whose error is returned as it came, and whose success ends the step with that
///   outcome.
/// No heartbeat or release is ever called.
pub open spec fn step_agrees<RE, EE>(
    dockets: Seq<Seq<char>>,
    calls: Seq<RegistryCall<RE>>,
    executions: Seq<(Execution, Result<Outcome, EE>)>,
    r: Result<Step, DriverError<RE, EE>>,
) -> bool {
    &&& calls.len() >= 1
    &&& calls[0] is Claim
    &&& calls[0]->Claim_dockets == dockets
    &&& match calls[0]->Claim_result {
        Err(e) => {
            &&& calls.len() == 1
            &&& executions.len() == 0
            &&& r == Err::<Step, DriverError<RE, EE>>(DriverError::Registry(e))
        },
        Ok(None) => {
            &&& calls.len() == 1
            &&& executions.len() == 0
            &&& r == Ok::<Step, DriverError<RE, EE>>(Step::Idle)
        },
        Ok(Some(claim)) => {
            &&& executions.len() == 1
            &&& executions[0].0.pact == claim.pact
            &&& match executions[0].1 {
                Err(e) => calls.len() == 1 && r == Err::<Step, DriverError<RE, EE>>(
                    DriverError::Executor(e),
                ),
                Ok(outcome) => calls.len() == 2 && match settlement_result(
                    calls[1],
                    outcome,
                    claim.retainer,
                ) {
                    Some(Ok(_)) => r == Ok::<Step, DriverError<RE, EE>>(step_for(outcome)),
                    Some(Err(e)) => r == Err::<Step, DriverError<RE, EE>>(DriverError::Registry(e)),
                    None => false,
                },
            }
        },
    }
}

/// Mechanical loop that performs the directives the sans-I/O kernel issues.
///
/// This is a reference runtime skeleton. It drives one step — claim, execute, settle — and
/// never heartbeats or reclaims within a step, so it suits tasks shorter than the lease and
/// single-worker use.
pub struct Driver<R, E> {
    registry: R,
    executor: E,
    dockets: Vec<String>,
}

impl<R, E> Driver<R, E> {
    /// The dockets this driver claims from.
    pub closed spec fn dockets(&self) -> Seq<Seq<char>> {
        self.dockets@.map_values(|d: String| d@)
    }

    /// The registry this driver drives.
    pub closed spec fn spec_registry(&self) -> R {
        self.registry
    }

    /// The executor this driver drives.
    pub closed spec fn spec_executor(&self) -> E {
        self.executor
    }

    /// Build a driver from a registry, an executor, and docket names.
    pub fn new(registry: R, executor: E, dockets: Vec<String>) -> (d: Self)
        ensures
            d.dockets() == dockets@.map_values(|s: String| s@),
            d.spec_registry() == registry,
            d.spec_executor() == executor,
    {
        Driver { registry, executor, dockets }
    }

    /// Borrow the registry used by this driver.
    pub fn registry(&self) -> (r: &R)
        ensures
            *r == self.spec_registry(),
    {
        &self.registry
    }

    /// Borrow the executor used by this driver.
    pub fn executor(&self) -> (e: &E)
        ensures
            *e == self.spec_executor(),
    {
        &self.executor
    }
}

/// How far a phase is from the end of a step.
spec fn phase_rank(phase: Phase) -> nat {
    match phase {
        Phase::Start => 6,
        Phase::Claiming => 5,
        Phase::Claimed(_) => 4,
        Phase::Executing(_) => 3,
        Phase::Executed(_, _) => 2,
        Phase::Settling(_) => 1,
        Phase::Done(_) => 0,
    }
}

/// The claim the first call of a step returned, read as a claim call from `dockets`.
spec fn claimed_from<RE>(call: RegistryCall<RE>, dockets: Seq<Seq<char>>, result: Result<Option<Claim>, RE>) -> bool {
    call is Claim && call->Claim_dockets == dockets && call->Claim_result == result
}

/// Where the kernel stands, read against the calls and executions the step made so far.
spec fn phase_agrees<RE, EE>(
    phase: Phase,
    dockets: Seq<Seq<char>>,
    calls: Seq<RegistryCall<RE>>,
    executions: Seq<(Execution, Result<Outcome, EE>)>,
    pending: Option<EE>,
) -> bool {
    match phase {
        Phase::Start => calls.len() == 0 && executions.len() == 0,
        Phase::Claimed(claim) => {
            &&& calls.len() == 1
            &&& claimed_from(calls[0], dockets, Ok(Some(claim)))
            &&& executions.len() == 0
        },
        Phase::Executed(retainer, outcome) => {
            &&& calls.len() == 1
            &&& calls[0] is Claim
            &&& calls[0]->Claim_dockets == dockets
            &&& calls[0]->Claim_result matches Ok(Some(claim))
            &&& claim.retainer == retainer
            &&& executions.len() == 1
            &&& executions[0].0.pact == claim.pact
            &&& executions[0].1 == Ok::<Outcome, EE>(outcome)
        },
        Phase::Done(StepResult::Idle) => {
            &&& calls.len() == 1
            &&& claimed_from(calls[0], dockets, Ok(None))
            &&& executions.len() == 0
        },
        Phase::Done(StepResult::Unsettled) => {
            &&& pending is Some
            &&& calls.len() == 1
            &&& calls[0] is Claim
            &&& calls[0]->Claim_dockets == dockets
            &&& calls[0]->Claim_result matches Ok(Some(claim))
            &&& executions.len() == 1
            &&& executions[0].0.pact == claim.pact
            &&& executions[0].1 == Err::<Outcome, EE>(pending->0)
        },
        Phase::Done(StepResult::Settled(outcome)) => {
            &&& calls.len() == 2
            &&& calls[0] is Claim
            &&& calls[0]->Claim_dockets == dockets
            &&& calls[0]->Claim_result matches Ok(Some(claim))
            &&& executions.len() == 1
            &&& executions[0].0.pact == claim.pact
            &&& executions[0].1 == Ok::<Outcome, EE>(outcome)
            &&& settlement_result(calls[1], outcome, claim.retainer) matches Some(Ok(_))
        },
        _ => false,
    }
}

impl<R: Registry, E: Executor> Driver<R, E> {
    /// Perform one claim, execute, and settle step by driving the kernel: the kernel decides
    /// each directive; the driver performs it and feeds a notice back. The calls it makes on
    /// the registry and executor, and what it returns, are as [`step_agrees`] states.
    pub fn step(&mut self) -> (r: Result<Step, DriverError<R::Error, E::Error>>)
        ensures
            final(self).dockets() == old(self).dockets(),
            old(self).spec_registry().calls().len() <= final(self).spec_registry().calls().len(),
            final(self).spec_registry().calls().subrange(
                0,
                old(self).spec_registry().calls().len() as int,
            ) == old(self).spec_registry().calls(),
            old(self).spec_executor().executions().len()
                <= final(self).spec_executor().executions().len(),
            final(self).spec_executor().executions().subrange(
                0,
                old(self).spec_executor().executions().len() as int,
            ) == old(self).spec_executor().executions(),
            final(self).spec_registry().calls()[old(self).spec_registry().calls().len() as int] is Claim,
            read_from_clock(
                final(self).spec_registry().calls()[old(self).spec_registry().calls().len() as int]->Claim_now,
            ),
            step_agrees(
                old(self).dockets(),
                final(self).spec_registry().calls().skip(
                    old(self).spec_registry().calls().len() as int,
                ),
                final(self).spec_executor().executions().skip(
                    old(self).spec_executor().executions().len() as int,
                ),
                r,
            ),
    {
        let mut dockets: Vec<&str> = Vec::new();
        let mut i: usize = 0;
        while i < self.dockets.len()
            invariant
                i <= self.dockets.len(),
                dockets@.len() == i,
                forall|j: int| 0 <= j < i ==> #[trigger] dockets@[j]@ == self.dockets@[j]@,
            decreases self.dockets.len() - i,
        {
            dockets.push(self.dockets[i].as_str());
            i = i + 1;
        }
        let ghost ds = self.dockets();
        assert(docket_names(dockets@) =~= ds);
        let now = current_time();
        let mut kernel = Kernel::new();
        let mut pending_executor_error: Option<E::Error> = None;
        let ghost ro = self.registry.calls();
        let ghost eo = self.executor.executions();
        let ghost mut rlog: Seq<RegistryCall<R::Error>> = Seq::empty();
        let ghost mut elog: Seq<(Execution, Result<Outcome, E::Error>)> = Seq::empty();

        loop
            invariant
                self.dockets == old(self).dockets,
                ds == old(self).dockets(),
                docket_names(dockets@) == ds,
                ro == old(self).registry.calls(),
                eo == old(self).executor.executions(),
                self.registry.calls() == ro + rlog,
                self.executor.executions() == eo + elog,
                phase_agrees(kernel.phase(), ds, rlog, elog, pending_executor_error),
                read_from_clock(now),
                rlog.len() > 0 ==> rlog[0] is Claim && rlog[0]->Claim_now == now,
            decreases phase_rank(kernel.phase()),
        {
            if let Some(result) = kernel.result() {
                return match result {
                    StepResult::Idle => Ok(Step::Idle),
                    StepResult::Settled(outcome) => Ok(
                        match outcome {
                            Outcome::Fulfilled => Step::Fulfilled,
                            Outcome::Breached => Step::Breached,
                        },
                    ),
                    StepResult::Unsettled => {
                        // An unsettled step means execution failed: settle nothing and
                        // surface the executor error. The claim lapses and is reclaimed.
                        Err(DriverError::Executor(pending_executor_error.unwrap()))
                    },
                };
            }
            match kernel.poll() {
                Directive::Claim => {
                    let claimed = self.registry.claim(dockets.as_slice(), now);
                    proof {
                        rlog = rlog.push(
                            RegistryCall::Claim { dockets: ds, now, result: claimed },
                        );
                    }
                    match claimed {
                        Ok(claim) => {
                            kernel.on_event(Notice::Claimed(claim));
                        },
                        Err(error) => {
                            return Err(DriverError::Registry(error));
                        },
                    }
                },
                Directive::Execute(pact) => {
                    let execution = Execution::new(pact);
                    let ghost asked = execution;
                    let executed = self.executor.execute(execution);
                    proof {
                        elog = elog.push((asked, executed));
                    }
                    match executed {
                        Ok(outcome) => {
                            kernel.on_event(Notice::Executed(outcome));
                        },
                        Err(error) => {
                            pending_executor_error = Some(error);
                            kernel.on_event(Notice::ExecutionFailed);
                        },
                    }
                },
                Directive::Settle(retainer, outcome) => {
                    let settled = match outcome {
                        Outcome::Fulfilled => self.registry.fulfill(&retainer),
                        Outcome::Breached => self.registry.breach(&retainer),
                    };
                    proof {
                        rlog = rlog.push(
                            match outcome {
                                Outcome::Fulfilled => RegistryCall::Fulfill {
                                    retainer,
                                    result: settled,
                                },
                                Outcome::Breached => RegistryCall::Breach {
                                    retainer,
                                    result: settled,
                                },
                            },
                        );
                    }
                    match settled {
                        Ok(()) => {
                            kernel.on_event(Notice::Settled);
                        },
                        Err(error) => {
                            return Err(DriverError::Registry(error));
                        },
                    }
                },
                Directive::Idle => return Ok(Step::Idle),
            }
        }
    }
}

} // verus!
