# pacta

A thin, durable lifecycle contract for user-defined obligations, verified with Verus.

A pact is claimed from a docket under a lease, executed, and settled (fulfilled or breached);
a lapsed lease lets the pact be reclaimed under a new retainer, and a holder may hand its pact
back until an instant (release). Time is always injected; the contract reads no clock.

- `src/` is the verified library: the lifecycle vocabulary and `Registry` trait (`contract`),
  the lifecycle decisions (`lifecycle`), the sans-I/O step kernel (`kernel`), the execution
  seam (`executor`), the mechanical driver (`driver`), the in-memory reference backends
  (`ledger`, `memory`, `memory_async`), the backend-agnostic conformance suite
  (`conformance`), and the governance rules and text checks (`governance`, `text`). Public functions state their behaviour in `ensures`; the
  properties that span functions are public `law_*` proof functions. Where an outcome is a
  user's (a backend's or an executor's result, the clock, a random retainer), the contract
  states what the library hands in and what it does with what comes back: `Registry` and
  `Executor` keep a specification log of their calls, and `Driver::step` and each conformance
  scenario are stated over it.
- `app/` is the runtime around it: the two asynchronous bindings and the async reference
  backend, serde forms of the vocabulary, displayable errors, and the governance runner.
- `tests/` runs the library: the conformance scenarios against both reference backends, the
  driver, the kernel, the lifecycle decisions, and the governance checks.
