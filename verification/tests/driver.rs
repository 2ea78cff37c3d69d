use std::sync::Mutex;

use pacta::driver::{timestamp_since_epoch, Driver, DriverError, Step};
use pacta::executor::{Execution, Executor, Middleware};
use pacta::contract::RegistryCall;
use pacta::{Claim, Outcome, Pact, Registry, Retainer, Timestamp};
use vstd::seq::Seq;
use uuid::Uuid;

#[derive(Debug, Clone, Copy, PartialEq, Eq)]
struct TestError;

impl std::fmt::Display for TestError {
    fn fmt(&self, f: &mut std::fmt::Formatter<'_>) -> std::fmt::Result {
        f.write_str("test error")
    }
}

impl std::error::Error for TestError {}

#[derive(Default)]
struct RegistryState {
    claim: Option<Claim>,
    claimed_dockets: Vec<Vec<String>>,
    fulfilled: usize,
    breached: usize,
}

#[derive(Default)]
struct TestRegistry {
    state: Mutex<RegistryState>,
}

impl TestRegistry {
    fn with_claim(claim: Claim) -> Self {
        Self {
            state: Mutex::new(RegistryState {
                claim: Some(claim),
                ..RegistryState::default()
            }),
        }
    }
}

impl Registry for TestRegistry {
    type Error = TestError;

    fn calls(&self) -> Seq<RegistryCall<Self::Error>> {
        unreachable!("the call log exists in specifications only")
    }

    fn claim(&mut self, dockets: &[&str], _now: Timestamp) -> Result<Option<Claim>, Self::Error> {
        self.state
            .lock()
            .expect("registry state should not be poisoned")
            .claimed_dockets
            .push(dockets.iter().map(ToString::to_string).collect());
        Ok(self
            .state
            .lock()
            .expect("registry state should not be poisoned")
            .claim
            .take())
    }

    fn heartbeat(&mut self, _retainer: &Retainer, _now: Timestamp) -> Result<(), Self::Error> {
        Ok(())
    }

    fn fulfill(&mut self, _retainer: &Retainer) -> Result<(), Self::Error> {
        self.state
            .lock()
            .expect("registry state should not be poisoned")
            .fulfilled += 1;
        Ok(())
    }

    fn breach(&mut self, _retainer: &Retainer) -> Result<(), Self::Error> {
        self.state
            .lock()
            .expect("registry state should not be poisoned")
            .breached += 1;
        Ok(())
    }

    fn release(&mut self, _retainer: &Retainer, _reclaimable_at: Timestamp) -> Result<(), Self::Error> {
        Ok(())
    }
}

struct TestExecutor {
    outcome: Result<Outcome, TestError>,
    executions: usize,
}

impl Executor for TestExecutor {
    type Error = TestError;

    fn executions(&self) -> Seq<(Execution, Result<Outcome, Self::Error>)> {
        unreachable!("the execution log exists in specifications only")
    }

    fn execute(&mut self, _execution: Execution) -> Result<Outcome, Self::Error> {
        self.executions += 1;
        self.outcome
    }
}

fn claim() -> Claim {
    Claim::new(
        Pact::new(
            Uuid::new_v4(),
            "default".to_string(),
            "example".to_string(),
            Vec::new(),
        ),
        Retainer::new(Uuid::new_v4()),
        Timestamp::from_millis(0),
    )
}

#[test]
fn successful_execution_fulfills_claim() {
    let registry = TestRegistry::with_claim(claim());
    let executor = TestExecutor {
        outcome: Ok(Outcome::Fulfilled),
        executions: 0,
    };
    let mut driver = Driver::new(registry, executor, vec!["default".to_string()]);

    assert_eq!(driver.step(), Ok(Step::Fulfilled));
    let state = driver
        .registry()
        .state
        .lock()
        .expect("registry state should not be poisoned");
    assert_eq!(state.fulfilled, 1);
    assert_eq!(state.breached, 0);
    drop(state);
    assert_eq!(driver.executor().executions, 1);
}

#[test]
fn breached_execution_breaches_claim() {
    let registry = TestRegistry::with_claim(claim());
    let executor = TestExecutor {
        outcome: Ok(Outcome::Breached),
        executions: 0,
    };
    let mut driver = Driver::new(registry, executor, vec!["default".to_string()]);

    assert_eq!(driver.step(), Ok(Step::Breached));
    let state = driver
        .registry()
        .state
        .lock()
        .expect("registry state should not be poisoned");
    assert_eq!(state.fulfilled, 0);
    assert_eq!(state.breached, 1);
    drop(state);
    assert_eq!(driver.executor().executions, 1);
}

#[test]
fn executor_error_leaves_claim_unsettled() {
    let registry = TestRegistry::with_claim(claim());
    let executor = TestExecutor {
        outcome: Err(TestError),
        executions: 0,
    };
    let mut driver = Driver::new(registry, executor, vec!["default".to_string()]);

    // An infrastructure failure surfaces the executor error and settles nothing.
    assert_eq!(driver.step(), Err(DriverError::Executor(TestError)));
    let state = driver
        .registry()
        .state
        .lock()
        .expect("registry state should not be poisoned");
    assert_eq!(state.fulfilled, 0);
    assert_eq!(state.breached, 0);
    drop(state);
    assert_eq!(driver.executor().executions, 1);
}

#[test]
fn empty_docket_is_idle() {
    let registry = TestRegistry::default();
    let executor = TestExecutor {
        outcome: Ok(Outcome::Fulfilled),
        executions: 0,
    };
    let mut driver = Driver::new(registry, executor, vec!["default".to_string()]);

    assert_eq!(driver.step(), Ok(Step::Idle));
    let state = driver
        .registry()
        .state
        .lock()
        .expect("registry state should not be poisoned");
    assert_eq!(state.fulfilled, 0);
    assert_eq!(state.breached, 0);
    drop(state);
    assert_eq!(driver.executor().executions, 0);
}

#[test]
fn driver_error_displays_and_exposes_source() {
    let executor_error: DriverError<TestError, TestError> = DriverError::Executor(TestError);
    assert_eq!(
        executor_error.to_string(),
        "executor infrastructure failed: test error"
    );
    assert_eq!(
        executor_error
            .source()
            .expect("driver error should expose its source")
            .to_string(),
        "test error"
    );

    let registry_error: DriverError<TestError, TestError> = DriverError::Registry(TestError);
    assert_eq!(
        registry_error.to_string(),
        "registry operation failed: test error"
    );
    assert_eq!(
        registry_error
            .source()
            .expect("driver error should expose its source")
            .to_string(),
        "test error"
    );
}

#[test]
fn driver_claims_from_its_dockets() {
    let registry = TestRegistry::with_claim(claim());
    let executor = TestExecutor {
        outcome: Ok(Outcome::Fulfilled),
        executions: 0,
    };
    let mut driver = Driver::new(
        registry,
        executor,
        vec!["default".to_string(), "other".to_string()],
    );
    assert_eq!(driver.step(), Ok(Step::Fulfilled));
    let state = driver.registry().state.lock().unwrap();
    assert_eq!(
        state.claimed_dockets,
        vec![vec!["default".to_string(), "other".to_string()]]
    );
}

struct FailingRegistry;

impl Registry for FailingRegistry {
    type Error = TestError;

    fn calls(&self) -> Seq<RegistryCall<Self::Error>> {
        unreachable!("the call log exists in specifications only")
    }
    fn claim(&mut self, _dockets: &[&str], _now: Timestamp) -> Result<Option<Claim>, TestError> {
        Err(TestError)
    }
    fn heartbeat(&mut self, _retainer: &Retainer, _now: Timestamp) -> Result<(), TestError> {
        Err(TestError)
    }
    fn fulfill(&mut self, _retainer: &Retainer) -> Result<(), TestError> {
        Err(TestError)
    }
    fn breach(&mut self, _retainer: &Retainer) -> Result<(), TestError> {
        Err(TestError)
    }
    fn release(&mut self, _retainer: &Retainer, _at: Timestamp) -> Result<(), TestError> {
        Err(TestError)
    }
}

#[test]
fn registry_claim_error_surfaces_without_executing() {
    let executor = TestExecutor {
        outcome: Ok(Outcome::Fulfilled),
        executions: 0,
    };
    let mut driver = Driver::new(FailingRegistry, executor, vec!["default".to_string()]);
    assert_eq!(driver.step(), Err(DriverError::Registry(TestError)));
    assert_eq!(driver.executor().executions, 0);
}

#[test]
fn current_time_is_after_the_epoch() {
    let now = pacta::driver::current_time();
    // 2020-01-01T00:00:00Z in milliseconds.
    assert!(now.as_millis() > 1_577_836_800_000);
}

/// A minimal registry that hands out one held claim and then has nothing left to claim.
struct Ledger {
    pending: Option<Claim>,
}

impl Registry for Ledger {
    type Error = std::convert::Infallible;

    fn calls(&self) -> Seq<RegistryCall<Self::Error>> {
        unreachable!("the call log exists in specifications only")
    }

    fn claim(&mut self, _dockets: &[&str], _now: Timestamp) -> Result<Option<Claim>, Self::Error> {
        Ok(self.pending.take())
    }

    fn heartbeat(&mut self, _retainer: &Retainer, _now: Timestamp) -> Result<(), Self::Error> {
        Ok(())
    }

    fn fulfill(&mut self, _retainer: &Retainer) -> Result<(), Self::Error> {
        Ok(())
    }

    fn breach(&mut self, _retainer: &Retainer) -> Result<(), Self::Error> {
        Ok(())
    }

    fn release(&mut self, _retainer: &Retainer, _at: Timestamp) -> Result<(), Self::Error> {
        Ok(())
    }
}

struct Performer;

impl Executor for Performer {
    type Error = std::convert::Infallible;

    fn executions(&self) -> Seq<(Execution, Result<Outcome, Self::Error>)> {
        unreachable!("the execution log exists in specifications only")
    }

    fn execute(&mut self, _execution: Execution) -> Result<Outcome, Self::Error> {
        Ok(Outcome::Fulfilled)
    }
}

struct Witness;

impl<E: Executor> Middleware<E> for Witness {
    type Executor = Witnessed<E>;

    fn wrap(&self, executor: E) -> Self::Executor {
        Witnessed { inner: executor }
    }
}

struct Witnessed<E> {
    inner: E,
}

impl<E: Executor> Executor for Witnessed<E> {
    type Error = E::Error;

    fn executions(&self) -> Seq<(Execution, Result<Outcome, Self::Error>)> {
        unreachable!("the execution log exists in specifications only")
    }

    fn execute(&mut self, execution: Execution) -> Result<Outcome, Self::Error> {
        self.inner.execute(execution)
    }
}

#[test]
fn composed_lifecycle_step_fulfills_then_idles() {
    let ledger = Ledger {
        pending: Some(claim()),
    };
    let performer = Witness.wrap(Performer);
    let mut driver = Driver::new(ledger, performer, vec!["default".to_string()]);
    assert_eq!(driver.step(), Ok(Step::Fulfilled));
    assert_eq!(driver.step(), Ok(Step::Idle));
}

#[test]
fn driver_steps_a_memory_registry() {
    let mut registry = pacta::memory::MemoryRegistry::seeded(
        vec![Pact::new(
            Uuid::new_v4(),
            "default".to_string(),
            "example".to_string(),
            Vec::new(),
        )],
        60_000,
    );
    let _ = registry.claim(&["nothing"], Timestamp::from_millis(0));
    let executor = TestExecutor {
        outcome: Ok(Outcome::Breached),
        executions: 0,
    };
    let mut driver = Driver::new(registry, executor, vec!["default".to_string()]);
    assert_eq!(driver.step(), Ok(Step::Breached));
    // The breached pact is settled: the next step finds nothing.
    assert_eq!(driver.step(), Ok(Step::Idle));
    assert_eq!(driver.executor().executions, 1);
}

#[test]
fn timestamps_since_epoch_saturate() {
    assert_eq!(timestamp_since_epoch(Some(1234)).as_millis(), 1234);
    assert_eq!(timestamp_since_epoch(Some(u128::from(u64::MAX) + 1)).as_millis(), u64::MAX);
    assert_eq!(timestamp_since_epoch(None).as_millis(), 0);
}
