use pacta::conformance::{
    breach_settles_terminally, claim_returns_claim_with_lease,
    expired_lease_lapses_and_reclaims_with_rotated_retainer, fulfill_settles_and_pact_not_claimable,
    heartbeat_extends_lease_preventing_lapse, heartbeat_on_lapsed_lease_rejected,
    heartbeat_unknown_retainer_rejected, held_pact_not_reclaimable_before_expiry,
    late_fulfill_before_reclaim_succeeds, no_available_pact_returns_none, run,
    stale_retainer_settle_rejected_after_reclaim, unrequested_docket_is_not_claimed,
    ConformanceFailure, DOCKET, LEASE_MILLIS, OTHER_DOCKET,
};
use pacta::contract::RegistryCall;
use pacta::lifecycle::Transition;
use pacta::memory::{MemoryRegistry, NotHeld};
use pacta::memory_async::{MemoryRegistryAsync, NotHeld as AsyncNotHeld};
use pacta::{Claim, Pact, Registry, Retainer, Timestamp};
use uuid::Uuid;
use vstd::seq::Seq;

fn at(millis: u64) -> Timestamp {
    Timestamp::from_millis(millis)
}

fn a_pact_on(docket: &str) -> Pact {
    Pact {
        id: Uuid::new_v4(),
        docket: docket.to_string(),
        kind: "conformance".to_string(),
        clause: Vec::new(),
    }
}

fn a_pact() -> Pact {
    a_pact_on(DOCKET)
}

fn seeded_with_one() -> MemoryRegistry {
    MemoryRegistry::seeded(vec![a_pact()], LEASE_MILLIS)
}

/// The async reference backend's state driven through the transition port, the way the async
/// binding's default methods drive it.
struct ThroughPort(MemoryRegistryAsync);

impl Registry for ThroughPort {
    type Error = AsyncNotHeld;

    fn calls(&self) -> Seq<RegistryCall<Self::Error>> {
        unreachable!("the call log exists in specifications only")
    }

    fn claim(&mut self, dockets: &[&str], now: Timestamp) -> Result<Option<Claim>, AsyncNotHeld> {
        self.0.claim(dockets, now)
    }

    fn heartbeat(&mut self, retainer: &Retainer, now: Timestamp) -> Result<(), AsyncNotHeld> {
        let lease_millis = self.0.lease_millis();
        self.0.apply(
            retainer,
            &Transition::Heartbeat {
                retainer: *retainer,
                now,
                lease_millis,
            },
        )
    }

    fn fulfill(&mut self, retainer: &Retainer) -> Result<(), AsyncNotHeld> {
        self.0.apply(retainer, &Transition::Settle { retainer: *retainer })
    }

    fn breach(&mut self, retainer: &Retainer) -> Result<(), AsyncNotHeld> {
        self.0.apply(retainer, &Transition::Settle { retainer: *retainer })
    }

    fn release(&mut self, retainer: &Retainer, reclaimable_at: Timestamp) -> Result<(), AsyncNotHeld> {
        self.0.apply(
            retainer,
            &Transition::Release {
                retainer: *retainer,
                reclaimable_at,
            },
        )
    }
}

#[test]
fn passes_registry_conformance() {
    if let Err(failure) = run(MemoryRegistry::seeded) {
        panic!("{:?}: {}", failure, failure.message());
    }
}

#[test]
fn passes_async_conformance() {
    if let Err(failure) =
        run(|pacts, lease_millis| ThroughPort(MemoryRegistryAsync::seeded(pacts, lease_millis)))
    {
        panic!("{:?}: {}", failure, failure.message());
    }
}

#[test]
fn each_scenario_passes_on_the_memory_registry() {
    assert_eq!(
        no_available_pact_returns_none(&mut MemoryRegistry::seeded(Vec::new(), LEASE_MILLIS)),
        Ok(())
    );
    assert_eq!(
        unrequested_docket_is_not_claimed(&mut MemoryRegistry::seeded(
            vec![a_pact_on(OTHER_DOCKET)],
            LEASE_MILLIS
        )),
        Ok(())
    );
    assert_eq!(claim_returns_claim_with_lease(&mut seeded_with_one()), Ok(()));
    assert_eq!(held_pact_not_reclaimable_before_expiry(&mut seeded_with_one()), Ok(()));
    assert_eq!(
        expired_lease_lapses_and_reclaims_with_rotated_retainer(&mut seeded_with_one()),
        Ok(())
    );
    assert_eq!(stale_retainer_settle_rejected_after_reclaim(&mut seeded_with_one()), Ok(()));
    assert_eq!(late_fulfill_before_reclaim_succeeds(&mut seeded_with_one()), Ok(()));
    assert_eq!(fulfill_settles_and_pact_not_claimable(&mut seeded_with_one()), Ok(()));
    assert_eq!(breach_settles_terminally(&mut seeded_with_one()), Ok(()));
    assert_eq!(heartbeat_extends_lease_preventing_lapse(&mut seeded_with_one()), Ok(()));
    assert_eq!(heartbeat_on_lapsed_lease_rejected(&mut seeded_with_one()), Ok(()));
    assert_eq!(heartbeat_unknown_retainer_rejected(&mut seeded_with_one()), Ok(()));
}

#[test]
fn scenarios_report_the_expectation_an_unseeded_backend_breaks() {
    assert_eq!(
        claim_returns_claim_with_lease(&mut MemoryRegistry::new(LEASE_MILLIS)),
        Err(ConformanceFailure::ClaimReturnsClaimWithLease("a pact should be claimable"))
    );
    assert_eq!(
        no_available_pact_returns_none(&mut seeded_with_one()),
        Err(ConformanceFailure::NoAvailablePactReturnsNone(
            "an empty registry must yield no claim"
        ))
    );
    assert_eq!(
        unrequested_docket_is_not_claimed(&mut seeded_with_one()),
        Err(ConformanceFailure::UnrequestedDocketIsNotClaimed(
            "a pact on an unrequested docket must not be claimed"
        ))
    );
    let failure = ConformanceFailure::BreachSettlesTerminally("breach should settle");
    assert_eq!(failure.message(), "breach should settle");
}

/// A backend that never hands out a claim.
struct NeverClaims;

impl Registry for NeverClaims {
    type Error = NotHeld;

    fn calls(&self) -> Seq<RegistryCall<Self::Error>> {
        unreachable!("the call log exists in specifications only")
    }

    fn claim(&mut self, _dockets: &[&str], _now: Timestamp) -> Result<Option<Claim>, NotHeld> {
        Ok(None)
    }

    fn heartbeat(&mut self, _retainer: &Retainer, _now: Timestamp) -> Result<(), NotHeld> {
        Err(NotHeld)
    }

    fn fulfill(&mut self, _retainer: &Retainer) -> Result<(), NotHeld> {
        Err(NotHeld)
    }

    fn breach(&mut self, _retainer: &Retainer) -> Result<(), NotHeld> {
        Err(NotHeld)
    }

    fn release(&mut self, _retainer: &Retainer, _reclaimable_at: Timestamp) -> Result<(), NotHeld> {
        Err(NotHeld)
    }
}

#[test]
fn run_stops_at_the_first_failing_scenario() {
    assert_eq!(
        run(|_pacts, _lease_millis| NeverClaims),
        Err(ConformanceFailure::UnrequestedDocketIsNotClaimed(
            "the same pact must be claimable from its own docket"
        ))
    );
}

/// The memory registry, except that every heartbeat reports success without extending
/// anything.
struct HollowHeartbeat(MemoryRegistry);

impl Registry for HollowHeartbeat {
    type Error = NotHeld;

    fn calls(&self) -> Seq<RegistryCall<Self::Error>> {
        unreachable!("the call log exists in specifications only")
    }

    fn claim(&mut self, dockets: &[&str], now: Timestamp) -> Result<Option<Claim>, NotHeld> {
        self.0.claim(dockets, now)
    }

    fn heartbeat(&mut self, _retainer: &Retainer, _now: Timestamp) -> Result<(), NotHeld> {
        Ok(())
    }

    fn fulfill(&mut self, retainer: &Retainer) -> Result<(), NotHeld> {
        self.0.fulfill(retainer)
    }

    fn breach(&mut self, retainer: &Retainer) -> Result<(), NotHeld> {
        self.0.breach(retainer)
    }

    fn release(&mut self, retainer: &Retainer, reclaimable_at: Timestamp) -> Result<(), NotHeld> {
        self.0.release(retainer, reclaimable_at)
    }
}

#[test]
fn a_heartbeat_that_extends_nothing_fails_the_suite() {
    assert_eq!(
        run(|pacts, lease_millis| HollowHeartbeat(MemoryRegistry::seeded(pacts, lease_millis))),
        Err(ConformanceFailure::HeartbeatExtendsLeasePreventingLapse(
            "a heartbeat within the window must prevent a lapse"
        ))
    );
    assert_eq!(
        heartbeat_on_lapsed_lease_rejected(&mut HollowHeartbeat(seeded_with_one())),
        Err(ConformanceFailure::HeartbeatOnLapsedLeaseRejected(
            "a heartbeat after the lease expired must be rejected, forcing a re-claim"
        ))
    );
}

const RETRY_DOCKET: &str = "retries";

fn backoff_millis(attempt: u32) -> u64 {
    1000 * u64::from(attempt)
}

#[test]
fn durable_retry_demonstration_runs_without_panicking() {
    let mut registry = MemoryRegistry::seeded(
        vec![Pact::new(
            Uuid::new_v4(),
            RETRY_DOCKET.to_string(),
            "retry-demo".to_string(),
            Vec::new(),
        )],
        LEASE_MILLIS,
    );
    let mut attempts = 0u32;
    let mut now = 0u64;

    let first = registry
        .claim(&[RETRY_DOCKET], at(now))
        .expect("claim should not error")
        .expect("the pact should be claimable");
    attempts += 1;
    let delay = backoff_millis(attempts);
    registry
        .release(&first.retainer, at(now + delay))
        .expect("release should succeed for the current holder");

    assert!(
        registry
            .claim(&[RETRY_DOCKET], at(now + delay / 2))
            .expect("claim should not error")
            .is_none(),
        "a released pact must be withheld before its reclaimable instant"
    );

    now += delay;
    let second = registry
        .claim(&[RETRY_DOCKET], at(now))
        .expect("claim should not error")
        .expect("the pact should be reclaimable at its reclaimable instant");
    assert_ne!(
        first.retainer.id(),
        second.retainer.id(),
        "reclaiming must rotate the retainer"
    );
    attempts += 1;
    registry
        .fulfill(&second.retainer)
        .expect("fulfill should settle the reclaimed pact");

    assert!(
        registry
            .claim(&[RETRY_DOCKET], at(now + LEASE_MILLIS + 1))
            .expect("claim should not error")
            .is_none(),
        "a fulfilled pact must not be claimable again"
    );
    assert_eq!(attempts, 2, "the pact should have taken exactly two attempts");
}

#[test]
fn no_available_pact_returns_none_in_memory() {
    assert_eq!(
        no_available_pact_returns_none(&mut MemoryRegistry::new(LEASE_MILLIS)),
        Ok(())
    );
}

#[test]
fn claim_takes_pacts_in_seeded_order() {
    let first = a_pact();
    let second = a_pact();
    let first_id = first.id;
    let second_id = second.id;
    let mut registry = MemoryRegistry::seeded(vec![first, second], LEASE_MILLIS);
    let a = registry.claim(&[DOCKET], at(0)).unwrap().unwrap();
    let b = registry.claim(&[DOCKET], at(0)).unwrap().unwrap();
    assert_eq!(a.pact.id, first_id);
    assert_eq!(b.pact.id, second_id);
    assert!(registry.claim(&[DOCKET], at(0)).unwrap().is_none());
}

#[test]
fn claim_copies_the_pact_it_holds() {
    let pact = Pact::new(Uuid::new_v4(), DOCKET.to_string(), "kind".to_string(), vec![1, 2, 3]);
    let id = pact.id;
    let mut registry = MemoryRegistry::seeded(vec![pact], LEASE_MILLIS);
    let claim = registry.claim(&["elsewhere", DOCKET], at(7)).unwrap().unwrap();
    assert_eq!(claim.pact.id, id);
    assert_eq!(claim.pact.docket, DOCKET);
    assert_eq!(claim.pact.kind, "kind");
    assert_eq!(claim.pact.clause, vec![1, 2, 3]);
    assert_eq!(claim.lease_expiry.as_millis(), 1007);
}

#[test]
fn release_withholds_until_the_instant_then_reclaims() {
    let mut registry = MemoryRegistry::seeded(vec![a_pact()], LEASE_MILLIS);
    let claim = registry.claim(&[DOCKET], at(0)).unwrap().unwrap();
    registry.release(&claim.retainer, at(300)).unwrap();
    assert!(registry.claim(&[DOCKET], at(299)).unwrap().is_none());
    assert!(registry.fulfill(&claim.retainer).is_err(), "a released pact is no longer held");
    assert!(registry.claim(&[DOCKET], at(300)).unwrap().is_some());
}

#[test]
fn settle_and_release_by_a_stranger_are_rejected() {
    let mut registry = MemoryRegistry::seeded(vec![a_pact()], LEASE_MILLIS);
    let claim = registry.claim(&[DOCKET], at(0)).unwrap().unwrap();
    let stranger = Retainer::new(Uuid::new_v4());
    assert_eq!(registry.fulfill(&stranger), Err(pacta::memory::NotHeld));
    assert_eq!(registry.breach(&stranger), Err(pacta::memory::NotHeld));
    assert_eq!(registry.release(&stranger, at(0)), Err(pacta::memory::NotHeld));
    assert!(registry.fulfill(&claim.retainer).is_ok());
}

#[test]
fn heartbeat_at_the_expiry_instant_still_extends() {
    let mut registry = MemoryRegistry::seeded(vec![a_pact()], LEASE_MILLIS);
    let claim = registry.claim(&[DOCKET], at(0)).unwrap().unwrap();
    assert!(registry.heartbeat(&claim.retainer, at(1000)).is_ok());
    assert!(registry.claim(&[DOCKET], at(2000)).unwrap().is_none());
    assert!(registry.claim(&[DOCKET], at(2001)).unwrap().is_some());
}

#[test]
fn empty_registry_claims_nothing() {
    let mut registry = MemoryRegistry::new(LEASE_MILLIS);
    assert!(registry.claim(&[DOCKET], at(0)).unwrap().is_none());
    let mut registry = MemoryRegistryAsync::new(LEASE_MILLIS);
    assert!(registry.claim(&[DOCKET], at(0)).unwrap().is_none());
    assert_eq!(registry.lease_millis(), LEASE_MILLIS);
}

#[test]
fn async_apply_rejects_a_stranger() {
    let mut registry = MemoryRegistryAsync::seeded(vec![a_pact()], LEASE_MILLIS);
    let claim = registry.claim(&[DOCKET], at(0)).unwrap().unwrap();
    let stranger = Retainer::new(Uuid::new_v4());
    assert_eq!(
        registry.apply(&stranger, &Transition::Settle { retainer: stranger }),
        Err(AsyncNotHeld)
    );
    assert_eq!(
        registry.apply(&claim.retainer, &Transition::Settle { retainer: claim.retainer }),
        Ok(())
    );
    assert!(registry.claim(&[DOCKET], at(0)).unwrap().is_none());
}

#[test]
fn not_current_holder_converts_to_not_held() {
    let converted: AsyncNotHeld = pacta::lifecycle::NotCurrentHolder.into();
    assert_eq!(converted, AsyncNotHeld);
}

#[test]
fn settlement_applies_at_most_once() {
    let mut registry = MemoryRegistry::seeded(vec![a_pact()], LEASE_MILLIS);
    let claim = registry.claim(&[DOCKET], at(0)).unwrap().unwrap();
    assert!(registry.fulfill(&claim.retainer).is_ok());
    assert!(registry.fulfill(&claim.retainer).is_err());
    assert!(registry.breach(&claim.retainer).is_err());

    let mut registry = MemoryRegistryAsync::seeded(vec![a_pact()], LEASE_MILLIS);
    let claim = registry.claim(&[DOCKET], at(0)).unwrap().unwrap();
    let settle = Transition::Settle {
        retainer: claim.retainer,
    };
    assert_eq!(registry.apply(&claim.retainer, &settle), Ok(()));
    assert_eq!(registry.apply(&claim.retainer, &settle), Err(AsyncNotHeld));
}

#[test]
fn release_relinquishes_authority_until_reclaimed() {
    let mut registry = MemoryRegistry::seeded(vec![a_pact()], LEASE_MILLIS);
    let claim = registry.claim(&[DOCKET], at(0)).unwrap().unwrap();
    registry.release(&claim.retainer, at(400)).unwrap();
    assert!(registry.heartbeat(&claim.retainer, at(10)).is_err());
    assert!(registry.release(&claim.retainer, at(10)).is_err());
    assert!(registry.breach(&claim.retainer).is_err());
    let again = registry.claim(&[DOCKET], at(400)).unwrap().expect("reclaimable from its instant");
    assert_ne!(again.retainer.id(), claim.retainer.id());
    assert!(registry.fulfill(&again.retainer).is_ok());
}

#[test]
fn fulfill_and_breach_settle_alike() {
    let mut fulfilled = seeded_with_one();
    let mut breached = seeded_with_one();
    let stranger = Retainer::new(Uuid::new_v4());
    assert_eq!(fulfilled.fulfill(&stranger), breached.breach(&stranger));
    let a = fulfilled.claim(&[DOCKET], at(0)).unwrap().unwrap();
    let b = breached.claim(&[DOCKET], at(0)).unwrap().unwrap();
    assert_eq!(fulfilled.fulfill(&a.retainer), Ok(()));
    assert_eq!(breached.breach(&b.retainer), Ok(()));
    assert_eq!(fulfilled.fulfill(&a.retainer), breached.breach(&b.retainer));
    assert!(fulfilled.claim(&[DOCKET], at(5000)).unwrap().is_none());
    assert!(breached.claim(&[DOCKET], at(5000)).unwrap().is_none());
}
