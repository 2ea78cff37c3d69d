//! The execution seam: an [`Executor`] carries out a claimed pact, and a [`Middleware`]
//! wraps one executor into another, so orchestration composes onto the seam.
use crate::contract::{Outcome, Pact};
use vstd::prelude::*;

verus! {

/// A single attempt to fulfill a claimed pact: the executor's input.
#[derive(Debug, Clone)]
#[non_exhaustive]
pub struct Execution {
    /// Pact being executed.
    pub pact: Pact,
}

impl Execution {
    /// Build an execution from a claimed pact.
    pub fn new(pact: Pact) -> (e: Execution)
        ensures
            e.pact == pact,
    {
        Execution { pact }
    }
}

/// Public role responsible for executing claimed pacts, implemented by the user.
///
/// Each executor keeps, in specifications, the log of the executions asked of it and what
/// each returned, so that code generic over executors can state what it handed in and what
/// it did with the result. The log promises nothing of the outcomes themselves.
pub trait Executor {
    /// Error returned when the execution infrastructure fails.
    type Error;

    /// Every execution asked of this executor, with what it returned, in order.
    spec fn executions(&self) -> Seq<(Execution, Result<Outcome, Self::Error>)>;

    /// Execute a claimed pact.
    fn execute(&mut self, execution: Execution) -> (r: Result<Outcome, Self::Error>)
        ensures
            final(self).executions() == old(self).executions().push((execution, r)),
    ;
}

/// A decorator over execution: it takes an executor and returns an executor, so middleware
/// stack arbitrarily.
pub trait Middleware<E> {
    /// The wrapped executor type.
    type Executor: Executor;

    /// Wrap an executor with this middleware.
    fn wrap(&self, executor: E) -> Self::Executor;
}

} // verus!
