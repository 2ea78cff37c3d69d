use pacta::kernel::{Directive, Kernel, Notice, StepResult};
use pacta::{Claim, Outcome, Pact, Retainer, Timestamp};
use uuid::Uuid;

fn a_claim() -> Claim {
    Claim::new(
        Pact::new(Uuid::new_v4(), "d".to_string(), "k".to_string(), vec![9]),
        Retainer::new(Uuid::new_v4()),
        Timestamp::from_millis(1000),
    )
}

#[test]
fn kernel_claims_executes_and_settles() {
    let claim = a_claim();
    let pact_id = claim.pact.id;
    let retainer = claim.retainer;
    let mut kernel = Kernel::new();
    assert!(kernel.result().is_none());
    assert!(matches!(kernel.poll(), Directive::Claim));
    kernel.on_event(Notice::Claimed(Some(claim)));
    match kernel.poll() {
        Directive::Execute(pact) => assert_eq!(pact.id, pact_id),
        other => panic!("expected an execute directive, got {other:?}"),
    }
    kernel.on_event(Notice::Executed(Outcome::Breached));
    match kernel.poll() {
        Directive::Settle(r, outcome) => {
            assert_eq!(r, retainer);
            assert_eq!(outcome, Outcome::Breached);
        }
        other => panic!("expected a settle directive, got {other:?}"),
    }
    assert!(kernel.result().is_none());
    kernel.on_event(Notice::Settled);
    assert_eq!(kernel.result(), Some(StepResult::Settled(Outcome::Breached)));
    assert!(matches!(kernel.poll(), Directive::Idle));
}

#[test]
fn kernel_is_idle_when_nothing_is_claimed() {
    let mut kernel = Kernel::new();
    assert!(matches!(kernel.poll(), Directive::Claim));
    kernel.on_event(Notice::Claimed(None));
    assert_eq!(kernel.result(), Some(StepResult::Idle));
}

#[test]
fn kernel_leaves_a_failed_execution_unsettled() {
    let mut kernel = Kernel::new();
    kernel.poll();
    kernel.on_event(Notice::Claimed(Some(a_claim())));
    kernel.poll();
    kernel.on_event(Notice::ExecutionFailed);
    assert_eq!(kernel.result(), Some(StepResult::Unsettled));
    assert!(matches!(kernel.poll(), Directive::Idle));
    kernel.on_event(Notice::Settled);
    assert_eq!(kernel.result(), Some(StepResult::Unsettled));
}

#[test]
fn kernel_ignores_an_out_of_order_notice() {
    let mut kernel = Kernel::new();
    kernel.on_event(Notice::Settled);
    assert!(kernel.result().is_none());
    assert!(matches!(kernel.poll(), Directive::Claim));
    // Awaiting the claim: nothing to do yet.
    assert!(matches!(kernel.poll(), Directive::Idle));
}
