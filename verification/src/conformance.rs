//! A backend-agnostic conformance suite for [`Registry`] implementations.
//!
//! Each scenario drives a freshly seeded backend through the `Registry` trait alone, with
//! controlled instants and never a wall clock, and judges what the backend answered. Its
//! contract states which calls it makes, with which arguments, and which verdict it reaches
//! for every answer the backend may give. [`run`] builds one backend per scenario with a
//! constructor closure and stops at the first failing scenario.
use crate::contract::{docket_names, fresh_uuid, lemma_minted, minted, Claim, Pact, Registry, RegistryCall, Retainer, Timestamp};
use vstd::prelude::*;

verus! {

/// The lease duration, in milliseconds, the suite constructs every backend with.
pub const LEASE_MILLIS: u64 = 1000;

/// The docket every scenario claims from.
pub const DOCKET: &'static str = "conformance";

/// The docket of the pact that must not be claimed from [`DOCKET`].
pub const OTHER_DOCKET: &'static str = "other";

/// The kind of every pact the suite seeds.
pub const PACT_KIND: &'static str = "conformance";

/// A scenario that the backend failed, with the expectation it broke.
#[derive(Debug, Clone, Copy, PartialEq, Eq)]
pub enum ConformanceFailure {
    /// An empty registry must yield no claim.
    NoAvailablePactReturnsNone(&'static str),
    /// A pact is claimable from its own docket only.
    UnrequestedDocketIsNotClaimed(&'static str),
    /// A claim is leased for the lease duration from the instant of the claim.
    ClaimReturnsClaimWithLease(&'static str),
    /// A held pact stays held until its lease expires.
    HeldPactNotReclaimableBeforeExpiry(&'static str),
    /// An expired lease lapses, and the pact is reclaimed under a new retainer and lease.
    ExpiredLeaseLapsesAndReclaimsWithRotatedRetainer(&'static str),
    /// After a reclaim, the prior holder can no longer settle.
    StaleRetainerSettleRejectedAfterReclaim(&'static str),
    /// A lapsed holder still settles while nobody has reclaimed.
    LateFulfillBeforeReclaimSucceeds(&'static str),
    /// A fulfilled pact is settled and no longer claimable.
    FulfillSettlesAndPactNotClaimable(&'static str),
    /// A breached pact is settled for good.
    BreachSettlesTerminally(&'static str),
    /// An in-window heartbeat extends the lease.
    HeartbeatExtendsLeasePreventingLapse(&'static str),
    /// A heartbeat on a lapsed lease is refused.
    HeartbeatOnLapsedLeaseRejected(&'static str),
    /// A heartbeat with a retainer never issued is refused.
    HeartbeatUnknownRetainerRejected(&'static str),
}

impl ConformanceFailure {
    /// The expectation the backend broke.
    pub open spec fn spec_message(self) -> &'static str {
        match self {
            ConformanceFailure::NoAvailablePactReturnsNone(m) => m,
            ConformanceFailure::UnrequestedDocketIsNotClaimed(m) => m,
            ConformanceFailure::ClaimReturnsClaimWithLease(m) => m,
            ConformanceFailure::HeldPactNotReclaimableBeforeExpiry(m) => m,
            ConformanceFailure::ExpiredLeaseLapsesAndReclaimsWithRotatedRetainer(m) => m,
            ConformanceFailure::StaleRetainerSettleRejectedAfterReclaim(m) => m,
            ConformanceFailure::LateFulfillBeforeReclaimSucceeds(m) => m,
            ConformanceFailure::FulfillSettlesAndPactNotClaimable(m) => m,
            ConformanceFailure::BreachSettlesTerminally(m) => m,
            ConformanceFailure::HeartbeatExtendsLeasePreventingLapse(m) => m,
            ConformanceFailure::HeartbeatOnLapsedLeaseRejected(m) => m,
            ConformanceFailure::HeartbeatUnknownRetainerRejected(m) => m,
        }
    }

    /// The expectation the backend broke.
    #[verifier::when_used_as_spec(spec_message)]
    pub fn message(self) -> (m: &'static str)
        ensures
            m == self.spec_message(),
    {
        match self {
            ConformanceFailure::NoAvailablePactReturnsNone(m) => m,
            ConformanceFailure::UnrequestedDocketIsNotClaimed(m) => m,
            ConformanceFailure::ClaimReturnsClaimWithLease(m) => m,
            ConformanceFailure::HeldPactNotReclaimableBeforeExpiry(m) => m,
            ConformanceFailure::ExpiredLeaseLapsesAndReclaimsWithRotatedRetainer(m) => m,
            ConformanceFailure::StaleRetainerSettleRejectedAfterReclaim(m) => m,
            ConformanceFailure::LateFulfillBeforeReclaimSucceeds(m) => m,
            ConformanceFailure::FulfillSettlesAndPactNotClaimable(m) => m,
            ConformanceFailure::BreachSettlesTerminally(m) => m,
            ConformanceFailure::HeartbeatExtendsLeasePreventingLapse(m) => m,
            ConformanceFailure::HeartbeatOnLapsedLeaseRejected(m) => m,
            ConformanceFailure::HeartbeatUnknownRetainerRejected(m) => m,
        }
    }
}

/// `after` is `before` followed by further calls.
pub open spec fn continues<E>(before: Seq<RegistryCall<E>>, after: Seq<RegistryCall<E>>) -> bool {
    &&& before.len() <= after.len()
    &&& after.subrange(0, before.len() as int) == before
}

/// The calls in `after` that follow the first `before.len()`.
pub open spec fn made_after<E>(before: Seq<RegistryCall<E>>, after: Seq<RegistryCall<E>>) -> Seq<
    RegistryCall<E>,
> {
    after.skip(before.len() as int)
}

/// A claim from the single docket `docket` at `millis` that returned `result`.
pub open spec fn claim_call<E>(docket: Seq<char>, millis: u64, result: Result<Option<Claim>, E>) -> RegistryCall<E> {
    RegistryCall::Claim { dockets: seq![docket], now: Timestamp::spec_at(millis), result }
}

/// Why an opening claim that had to hand out a claim did not.
pub open spec fn missing_claim<E>(result: Result<Option<Claim>, E>) -> &'static str {
    if result is Err {
        "claim should not error"
    } else {
        "a pact should be claimable"
    }
}

proof fn lemma_calls_made<E>(start: Seq<RegistryCall<E>>, after: Seq<RegistryCall<E>>, made: Seq<RegistryCall<E>>)
    requires
        after =~= start + made,
    ensures
        continues(start, after),
        made_after(start, after) == made,
{
    assert(after.subrange(0, start.len() as int) =~= start);
    assert(after.skip(start.len() as int) =~= made);
}

/// Claim from `docket` alone at `millis`.
fn claim_on<R: Registry>(registry: &mut R, docket: &str, millis: u64) -> (r: Result<Option<Claim>, R::Error>)
    ensures
        final(registry).calls() == old(registry).calls().push(claim_call(docket@, millis, r)),
{
    let mut dockets: Vec<&str> = Vec::new();
    dockets.push(docket);
    assert(docket_names(dockets@) =~= seq![docket@]);
    registry.claim(dockets.as_slice(), Timestamp::from_millis(millis))
}

/// `call` is a claim from `docket` alone at `millis` that handed out a claim.
pub open spec fn handed_out<E>(call: RegistryCall<E>, docket: Seq<char>, millis: u64) -> bool {
    &&& call is Claim
    &&& call->Claim_dockets == seq![docket]
    &&& call->Claim_now == Timestamp::spec_at(millis)
    &&& call->Claim_result matches Ok(Some(_))
}

/// `call` is a claim from `docket` alone at `millis` that handed out nothing.
pub open spec fn handed_out_nothing<E>(call: RegistryCall<E>, docket: Seq<char>, millis: u64) -> bool {
    &&& call is Claim
    &&& call->Claim_dockets == seq![docket]
    &&& call->Claim_now == Timestamp::spec_at(millis)
    &&& call->Claim_result matches Ok(None)
}

/// The claim `call` handed out.
pub open spec fn handed<E>(call: RegistryCall<E>) -> Claim {
    call->Claim_result->Ok_0->Some_0
}

/// `call` is a fulfill under `retainer` that succeeded (`ok`) or was refused (`!ok`).
pub open spec fn fulfilled_by<E>(call: RegistryCall<E>, retainer: Retainer, ok: bool) -> bool {
    call is Fulfill && call->Fulfill_retainer == retainer && (call->Fulfill_result is Ok) == ok
}

/// `call` is a breach under `retainer` that succeeded (`ok`) or was refused (`!ok`).
pub open spec fn breached_by<E>(call: RegistryCall<E>, retainer: Retainer, ok: bool) -> bool {
    call is Breach && call->Breach_retainer == retainer && (call->Breach_result is Ok) == ok
}

/// `call` is a heartbeat under `retainer` at `millis` that succeeded (`ok`) or was refused
/// (`!ok`).
pub open spec fn heartbeat_by<E>(call: RegistryCall<E>, retainer: Retainer, millis: u64, ok: bool) -> bool {
    &&& call is Heartbeat
    &&& call->Heartbeat_retainer == retainer
    &&& call->Heartbeat_now == Timestamp::spec_at(millis)
    &&& (call->Heartbeat_result is Ok) == ok
}

/// What [`no_available_pact_returns_none`] does: it claims at 0, which must hand out nothing.
pub open spec fn no_available_pact_returns_none_outcome<E>(
    calls: Seq<RegistryCall<E>>,
    r: Result<(), ConformanceFailure>,
) -> bool {
    let first = calls[0]->Claim_result;
    &&& calls == seq![claim_call(DOCKET@, 0, first)]
    &&& r == match first {
        Ok(None) => Ok(()),
        Ok(Some(_)) => Err(ConformanceFailure::NoAvailablePactReturnsNone(
            "an empty registry must yield no claim",
        )),
        Err(_) => Err(ConformanceFailure::NoAvailablePactReturnsNone("claim should not error")),
    }
}

/// An empty registry yields no claim.
pub fn no_available_pact_returns_none<R: Registry>(registry: &mut R) -> (r: Result<(), ConformanceFailure>)
    ensures
        continues(old(registry).calls(), final(registry).calls()),
        no_available_pact_returns_none_outcome(made_after(old(registry).calls(), final(registry).calls()), r),
        // The scenario passes exactly when the claim from the empty backend hands out nothing.
        r is Ok <==> ({
            let m = made_after(old(registry).calls(), final(registry).calls());
            &&& m.len() == 1
            &&& handed_out_nothing(m[0], DOCKET@, 0)
        }),
{
    let ghost start = registry.calls();
    let first = claim_on(registry, DOCKET, 0);
    proof { lemma_calls_made(start, registry.calls(), seq![claim_call(DOCKET@, 0, first)]); }
    match first {
        Ok(None) => Ok(()),
        Ok(Some(_)) => Err(ConformanceFailure::NoAvailablePactReturnsNone(
            "an empty registry must yield no claim",
        )),
        Err(_) => Err(ConformanceFailure::NoAvailablePactReturnsNone("claim should not error")),
    }
}

/// What [`unrequested_docket_is_not_claimed`] does: it claims from [`DOCKET`] at 0, which
/// must hand out nothing, and then from [`OTHER_DOCKET`] at 0, which must hand out the pact.
pub open spec fn unrequested_docket_is_not_claimed_outcome<E>(
    calls: Seq<RegistryCall<E>>,
    r: Result<(), ConformanceFailure>,
) -> bool {
    let first = calls[0]->Claim_result;
    match first {
        Ok(None) => {
            let second = calls[1]->Claim_result;
            &&& calls == seq![claim_call(DOCKET@, 0, first), claim_call(OTHER_DOCKET@, 0, second)]
            &&& r == match second {
                Ok(Some(_)) => Ok(()),
                Ok(None) => Err(ConformanceFailure::UnrequestedDocketIsNotClaimed(
                    "the same pact must be claimable from its own docket",
                )),
                Err(_) => Err(ConformanceFailure::UnrequestedDocketIsNotClaimed("claim should not error")),
            }
        },
        Ok(Some(_)) => {
            &&& calls == seq![claim_call(DOCKET@, 0, first)]
            &&& r == Err::<(), ConformanceFailure>(ConformanceFailure::UnrequestedDocketIsNotClaimed(
                "a pact on an unrequested docket must not be claimed",
            ))
        },
        Err(_) => {
            &&& calls == seq![claim_call(DOCKET@, 0, first)]
            &&& r == Err::<(), ConformanceFailure>(ConformanceFailure::UnrequestedDocketIsNotClaimed(
                "claim should not error",
            ))
        },
    }
}

/// A pact is claimed only from its own docket.
pub fn unrequested_docket_is_not_claimed<R: Registry>(registry: &mut R) -> (r: Result<(), ConformanceFailure>)
    ensures
        continues(old(registry).calls(), final(registry).calls()),
        unrequested_docket_is_not_claimed_outcome(made_after(old(registry).calls(), final(registry).calls()), r),
        // The scenario passes exactly when the pact is not handed out from the docket it is not on, and is from its own.
        r is Ok <==> ({
            let m = made_after(old(registry).calls(), final(registry).calls());
            &&& m.len() == 2
            &&& handed_out_nothing(m[0], DOCKET@, 0)
            &&& handed_out(m[1], OTHER_DOCKET@, 0)
        }),
{
    let ghost start = registry.calls();
    let first = claim_on(registry, DOCKET, 0);
    let ghost c1 = claim_call(DOCKET@, 0, first);
    match first {
        Ok(None) => {},
        Ok(Some(_)) => {
            proof { lemma_calls_made(start, registry.calls(), seq![c1]); }
            return Err(ConformanceFailure::UnrequestedDocketIsNotClaimed(
                "a pact on an unrequested docket must not be claimed",
            ));
        },
        Err(_) => {
            proof { lemma_calls_made(start, registry.calls(), seq![c1]); }
            return Err(ConformanceFailure::UnrequestedDocketIsNotClaimed("claim should not error"));
        },
    }
    let second = claim_on(registry, OTHER_DOCKET, 0);
    proof { lemma_calls_made(start, registry.calls(), seq![c1, claim_call(OTHER_DOCKET@, 0, second)]); }
    match second {
        Ok(Some(_)) => Ok(()),
        Ok(None) => Err(ConformanceFailure::UnrequestedDocketIsNotClaimed(
            "the same pact must be claimable from its own docket",
        )),
        Err(_) => Err(ConformanceFailure::UnrequestedDocketIsNotClaimed("claim should not error")),
    }
}

/// What [`claim_returns_claim_with_lease`] does: it claims at 100, which must hand out a
/// claim leased until 100 plus the lease duration.
pub open spec fn claim_returns_claim_with_lease_outcome<E>(
    calls: Seq<RegistryCall<E>>,
    r: Result<(), ConformanceFailure>,
) -> bool {
    let first = calls[0]->Claim_result;
    &&& calls == seq![claim_call(DOCKET@, 100, first)]
    &&& r == match first {
        Ok(Some(a)) => if a.lease_expiry == Timestamp::spec_at((100 + LEASE_MILLIS) as u64) {
            Ok(())
        } else {
            Err(ConformanceFailure::ClaimReturnsClaimWithLease(
                "lease expiry must be now plus the lease duration",
            ))
        },
        _ => Err(ConformanceFailure::ClaimReturnsClaimWithLease(missing_claim(first))),
    }
}

/// A claim is leased for the lease duration from the instant of the claim.
pub fn claim_returns_claim_with_lease<R: Registry>(registry: &mut R) -> (r: Result<(), ConformanceFailure>)
    ensures
        continues(old(registry).calls(), final(registry).calls()),
        claim_returns_claim_with_lease_outcome(made_after(old(registry).calls(), final(registry).calls()), r),
        // The scenario passes exactly when the claim at 100 is leased until 100 plus the lease.
        r is Ok <==> ({
            let m = made_after(old(registry).calls(), final(registry).calls());
            &&& m.len() == 1
            &&& handed_out(m[0], DOCKET@, 100)
            &&& handed(m[0]).lease_expiry == Timestamp::spec_at((100 + LEASE_MILLIS) as u64)
        }),
{
    let ghost start = registry.calls();
    let first = claim_on(registry, DOCKET, 100);
    proof { lemma_calls_made(start, registry.calls(), seq![claim_call(DOCKET@, 100, first)]); }
    match first {
        Ok(Some(a)) => if a.lease_expiry == Timestamp::from_millis(100 + LEASE_MILLIS) {
            Ok(())
        } else {
            Err(ConformanceFailure::ClaimReturnsClaimWithLease(
                "lease expiry must be now plus the lease duration",
            ))
        },
        Ok(None) => Err(ConformanceFailure::ClaimReturnsClaimWithLease("a pact should be claimable")),
        Err(_) => Err(ConformanceFailure::ClaimReturnsClaimWithLease("claim should not error")),
    }
}

/// What [`held_pact_not_reclaimable_before_expiry`] does: it claims at 0, and when that hands
/// out a claim, claims again at 500, which must hand out nothing.
pub open spec fn held_pact_not_reclaimable_before_expiry_outcome<E>(
    calls: Seq<RegistryCall<E>>,
    r: Result<(), ConformanceFailure>,
) -> bool {
    let first = calls[0]->Claim_result;
    match first {
        Ok(Some(_)) => {
            let second = calls[1]->Claim_result;
            &&& calls == seq![claim_call(DOCKET@, 0, first), claim_call(DOCKET@, 500, second)]
            &&& r == match second {
                Ok(None) => Ok(()),
                Ok(Some(_)) => Err(ConformanceFailure::HeldPactNotReclaimableBeforeExpiry(
                    "a held pact must not be reclaimable before its lease expires",
                )),
                Err(_) => Err(ConformanceFailure::HeldPactNotReclaimableBeforeExpiry(
                    "claim should not error",
                )),
            }
        },
        _ => {
            &&& calls == seq![claim_call(DOCKET@, 0, first)]
            &&& r == Err::<(), ConformanceFailure>(
                ConformanceFailure::HeldPactNotReclaimableBeforeExpiry(missing_claim(first)),
            )
        },
    }
}

/// A held pact is not reclaimable before its lease expires.
pub fn held_pact_not_reclaimable_before_expiry<R: Registry>(registry: &mut R) -> (r: Result<(), ConformanceFailure>)
    ensures
        continues(old(registry).calls(), final(registry).calls()),
        held_pact_not_reclaimable_before_expiry_outcome(
            made_after(old(registry).calls(), final(registry).calls()),
            r,
        ),
        // The scenario passes exactly when the pact claimed at 0 is not handed out again at 500.
        r is Ok <==> ({
            let m = made_after(old(registry).calls(), final(registry).calls());
            &&& m.len() == 2
            &&& handed_out(m[0], DOCKET@, 0)
            &&& handed_out_nothing(m[1], DOCKET@, 500)
        }),
{
    let ghost start = registry.calls();
    let first = claim_on(registry, DOCKET, 0);
    let ghost c1 = claim_call(DOCKET@, 0, first);
    match first {
        Ok(Some(_)) => {},
        Ok(None) => {
            proof { lemma_calls_made(start, registry.calls(), seq![c1]); }
            return Err(ConformanceFailure::HeldPactNotReclaimableBeforeExpiry(
                "a pact should be claimable",
            ));
        },
        Err(_) => {
            proof { lemma_calls_made(start, registry.calls(), seq![c1]); }
            return Err(ConformanceFailure::HeldPactNotReclaimableBeforeExpiry("claim should not error"));
        },
    }
    let second = claim_on(registry, DOCKET, 500);
    proof { lemma_calls_made(start, registry.calls(), seq![c1, claim_call(DOCKET@, 500, second)]); }
    match second {
        Ok(None) => Ok(()),
        Ok(Some(_)) => Err(ConformanceFailure::HeldPactNotReclaimableBeforeExpiry(
            "a held pact must not be reclaimable before its lease expires",
        )),
        Err(_) => Err(ConformanceFailure::HeldPactNotReclaimableBeforeExpiry("claim should not error")),
    }
}

/// What [`expired_lease_lapses_and_reclaims_with_rotated_retainer`] does: it claims at 0, and
/// when that hands out a claim, claims again at 1500; the second claim must hand out the pact
/// under another retainer, leased from 1500.
pub open spec fn expired_lease_lapses_and_reclaims_with_rotated_retainer_outcome<E>(
    calls: Seq<RegistryCall<E>>,
    r: Result<(), ConformanceFailure>,
) -> bool {
    let first = calls[0]->Claim_result;
    match first {
        Ok(Some(a)) => {
            let second = calls[1]->Claim_result;
            &&& calls == seq![claim_call(DOCKET@, 0, first), claim_call(DOCKET@, 1500, second)]
            &&& r == match second {
                Ok(Some(b)) => if a.retainer == b.retainer {
                    Err(ConformanceFailure::ExpiredLeaseLapsesAndReclaimsWithRotatedRetainer(
                        "reclaiming a lapsed pact must rotate the retainer",
                    ))
                } else if b.lease_expiry != Timestamp::spec_at((1500 + LEASE_MILLIS) as u64) {
                    Err(ConformanceFailure::ExpiredLeaseLapsesAndReclaimsWithRotatedRetainer(
                        "the reclaim must set a fresh lease",
                    ))
                } else {
                    Ok(())
                },
                Ok(None) => Err(ConformanceFailure::ExpiredLeaseLapsesAndReclaimsWithRotatedRetainer(
                    "an expired pact should be reclaimable through the claim path",
                )),
                Err(_) => Err(ConformanceFailure::ExpiredLeaseLapsesAndReclaimsWithRotatedRetainer(
                    "claim should not error",
                )),
            }
        },
        _ => {
            &&& calls == seq![claim_call(DOCKET@, 0, first)]
            &&& r == Err::<(), ConformanceFailure>(
                ConformanceFailure::ExpiredLeaseLapsesAndReclaimsWithRotatedRetainer(missing_claim(first)),
            )
        },
    }
}

/// An expired lease lapses: the pact is reclaimed through the claim path under a rotated
/// retainer and a fresh lease.
pub fn expired_lease_lapses_and_reclaims_with_rotated_retainer<R: Registry>(registry: &mut R) -> (r: Result<(), ConformanceFailure>)
    ensures
        continues(old(registry).calls(), final(registry).calls()),
        expired_lease_lapses_and_reclaims_with_rotated_retainer_outcome(
            made_after(old(registry).calls(), final(registry).calls()),
            r,
        ),
        // The scenario passes exactly when the pact claimed at 0 is handed out again at 1500, under another retainer, leased until 1500 plus the lease.
        r is Ok <==> ({
            let m = made_after(old(registry).calls(), final(registry).calls());
            &&& m.len() == 2
            &&& handed_out(m[0], DOCKET@, 0)
            &&& handed_out(m[1], DOCKET@, 1500)
            &&& handed(m[1]).retainer != handed(m[0]).retainer
            &&& handed(m[1]).lease_expiry == Timestamp::spec_at((1500 + LEASE_MILLIS) as u64)
        }),
{
    let ghost start = registry.calls();
    let first = claim_on(registry, DOCKET, 0);
    let ghost c1 = claim_call(DOCKET@, 0, first);
    let a = match first {
        Ok(Some(a)) => a,
        Ok(None) => {
            proof { lemma_calls_made(start, registry.calls(), seq![c1]); }
            return Err(ConformanceFailure::ExpiredLeaseLapsesAndReclaimsWithRotatedRetainer(
                "a pact should be claimable",
            ));
        },
        Err(_) => {
            proof { lemma_calls_made(start, registry.calls(), seq![c1]); }
            return Err(ConformanceFailure::ExpiredLeaseLapsesAndReclaimsWithRotatedRetainer(
                "claim should not error",
            ));
        },
    };
    let second = claim_on(registry, DOCKET, 1500);
    proof { lemma_calls_made(start, registry.calls(), seq![c1, claim_call(DOCKET@, 1500, second)]); }
    match second {
        Ok(Some(b)) => {
            if a.retainer.same_as(&b.retainer) {
                Err(ConformanceFailure::ExpiredLeaseLapsesAndReclaimsWithRotatedRetainer(
                    "reclaiming a lapsed pact must rotate the retainer",
                ))
            } else if b.lease_expiry != Timestamp::from_millis(1500 + LEASE_MILLIS) {
                Err(ConformanceFailure::ExpiredLeaseLapsesAndReclaimsWithRotatedRetainer(
                    "the reclaim must set a fresh lease",
                ))
            } else {
                Ok(())
            }
        },
        Ok(None) => Err(ConformanceFailure::ExpiredLeaseLapsesAndReclaimsWithRotatedRetainer(
            "an expired pact should be reclaimable through the claim path",
        )),
        Err(_) => Err(ConformanceFailure::ExpiredLeaseLapsesAndReclaimsWithRotatedRetainer(
            "claim should not error",
        )),
    }
}

/// What [`stale_retainer_settle_rejected_after_reclaim`] does: it claims at 0 and, when that
/// hands out a claim, again at 1500; when the second claim hands out the pact too, it fulfills
/// under the first claim's retainer, which must be refused.
pub open spec fn stale_retainer_settle_rejected_after_reclaim_outcome<E>(
    calls: Seq<RegistryCall<E>>,
    r: Result<(), ConformanceFailure>,
) -> bool {
    let first = calls[0]->Claim_result;
    match first {
        Ok(Some(a)) => {
            let second = calls[1]->Claim_result;
            match second {
                Ok(Some(_)) => {
                    let third = calls[2]->Fulfill_result;
                    &&& calls == seq![
                        claim_call(DOCKET@, 0, first),
                        claim_call(DOCKET@, 1500, second),
                        RegistryCall::Fulfill { retainer: a.retainer, result: third },
                    ]
                    &&& r == if third is Ok {
                        Err(ConformanceFailure::StaleRetainerSettleRejectedAfterReclaim(
                            "the prior holder must not settle after a reclaim (at-least-once safety)",
                        ))
                    } else {
                        Ok(())
                    }
                },
                _ => {
                    &&& calls == seq![claim_call(DOCKET@, 0, first), claim_call(DOCKET@, 1500, second)]
                    &&& r == Err::<(), ConformanceFailure>(
                        ConformanceFailure::StaleRetainerSettleRejectedAfterReclaim(
                            if second is Err {
                                "claim should not error"
                            } else {
                                "an expired pact should be reclaimable"
                            },
                        ),
                    )
                },
            }
        },
        _ => {
            &&& calls == seq![claim_call(DOCKET@, 0, first)]
            &&& r == Err::<(), ConformanceFailure>(
                ConformanceFailure::StaleRetainerSettleRejectedAfterReclaim(missing_claim(first)),
            )
        },
    }
}

/// After a reclaim, the prior holder's retainer no longer settles the pact.
pub fn stale_retainer_settle_rejected_after_reclaim<R: Registry>(registry: &mut R) -> (r: Result<(), ConformanceFailure>)
    ensures
        continues(old(registry).calls(), final(registry).calls()),
        stale_retainer_settle_rejected_after_reclaim_outcome(
            made_after(old(registry).calls(), final(registry).calls()),
            r,
        ),
        // The scenario passes exactly when, after the reclaim at 1500, the fulfill under the first claim's retainer is refused.
        r is Ok <==> ({
            let m = made_after(old(registry).calls(), final(registry).calls());
            &&& m.len() == 3
            &&& handed_out(m[0], DOCKET@, 0)
            &&& handed_out(m[1], DOCKET@, 1500)
            &&& fulfilled_by(m[2], handed(m[0]).retainer, false)
        }),
{
    let ghost start = registry.calls();
    let first = claim_on(registry, DOCKET, 0);
    let ghost c1 = claim_call(DOCKET@, 0, first);
    let a = match first {
        Ok(Some(a)) => a,
        Ok(None) => {
            proof { lemma_calls_made(start, registry.calls(), seq![c1]); }
            return Err(ConformanceFailure::StaleRetainerSettleRejectedAfterReclaim(
                "a pact should be claimable",
            ));
        },
        Err(_) => {
            proof { lemma_calls_made(start, registry.calls(), seq![c1]); }
            return Err(ConformanceFailure::StaleRetainerSettleRejectedAfterReclaim(
                "claim should not error",
            ));
        },
    };
    let second = claim_on(registry, DOCKET, 1500);
    let ghost c2 = claim_call(DOCKET@, 1500, second);
    match second {
        Ok(Some(_)) => {},
        Ok(None) => {
            proof { lemma_calls_made(start, registry.calls(), seq![c1, c2]); }
            return Err(ConformanceFailure::StaleRetainerSettleRejectedAfterReclaim(
                "an expired pact should be reclaimable",
            ));
        },
        Err(_) => {
            proof { lemma_calls_made(start, registry.calls(), seq![c1, c2]); }
            return Err(ConformanceFailure::StaleRetainerSettleRejectedAfterReclaim(
                "claim should not error",
            ));
        },
    }
    let third = registry.fulfill(&a.retainer);
    proof {
        lemma_calls_made(
            start,
            registry.calls(),
            seq![c1, c2, RegistryCall::Fulfill { retainer: a.retainer, result: third }],
        );
    }
    if third.is_ok() {
        Err(ConformanceFailure::StaleRetainerSettleRejectedAfterReclaim(
            "the prior holder must not settle after a reclaim (at-least-once safety)",
        ))
    } else {
        Ok(())
    }
}

/// What a scenario does that claims at 0, acts under the claim's retainer (`act` builds that
/// call from its result, `acted` reads the result back), and claims again at `later`: the act
/// must succeed and the later claim must hand out nothing. `fail` names the scenario's
/// failure; `refused` and `still_claimable` are the expectations the two later calls can break.
pub open spec fn acts_then_unclaimable<E>(
    calls: Seq<RegistryCall<E>>,
    r: Result<(), ConformanceFailure>,
    act: spec_fn(Retainer, Result<(), E>) -> RegistryCall<E>,
    acted: spec_fn(RegistryCall<E>) -> Result<(), E>,
    later: u64,
    fail: spec_fn(&'static str) -> ConformanceFailure,
    refused: &'static str,
    still_claimable: &'static str,
) -> bool {
    let first = calls[0]->Claim_result;
    match first {
        Ok(Some(a)) => {
            let second = acted(calls[1]);
            match second {
                Ok(()) => {
                    let third = calls[2]->Claim_result;
                    &&& calls == seq![
                        claim_call(DOCKET@, 0, first),
                        act(a.retainer, second),
                        claim_call(DOCKET@, later, third),
                    ]
                    &&& r == match third {
                        Ok(None) => Ok(()),
                        Ok(Some(_)) => Err(fail(still_claimable)),
                        Err(_) => Err(fail("claim should not error")),
                    }
                },
                Err(_) => {
                    &&& calls == seq![claim_call(DOCKET@, 0, first), act(a.retainer, second)]
                    &&& r == Err::<(), ConformanceFailure>(fail(refused))
                },
            }
        },
        _ => {
            &&& calls == seq![claim_call(DOCKET@, 0, first)]
            &&& r == Err::<(), ConformanceFailure>(fail(missing_claim(first)))
        },
    }
}

/// A fulfill under `retainer` that returned `result`.
pub open spec fn fulfill_call<E>(retainer: Retainer, result: Result<(), E>) -> RegistryCall<E> {
    RegistryCall::Fulfill { retainer, result }
}

/// A breach under `retainer` that returned `result`.
pub open spec fn breach_call<E>(retainer: Retainer, result: Result<(), E>) -> RegistryCall<E> {
    RegistryCall::Breach { retainer, result }
}

/// What [`late_fulfill_before_reclaim_succeeds`] does: it claims at 0, fulfills under the
/// claim's retainer, which must succeed although nothing says when, and claims at 9999, which
/// must hand out nothing.
pub open spec fn late_fulfill_before_reclaim_succeeds_outcome<E>(
    calls: Seq<RegistryCall<E>>,
    r: Result<(), ConformanceFailure>,
) -> bool {
    acts_then_unclaimable(
        calls,
        r,
        |retainer: Retainer, result: Result<(), E>| fulfill_call(retainer, result),
        |call: RegistryCall<E>| call->Fulfill_result,
        9999,
        |m: &'static str| ConformanceFailure::LateFulfillBeforeReclaimSucceeds(m),
        "a late fulfill before any reclaim must settle",
        "a settled pact must not be claimable",
    )
}

/// A lapsed holder still settles while nobody has reclaimed the pact.
pub fn late_fulfill_before_reclaim_succeeds<R: Registry>(registry: &mut R) -> (r: Result<(), ConformanceFailure>)
    ensures
        continues(old(registry).calls(), final(registry).calls()),
        late_fulfill_before_reclaim_succeeds_outcome(
            made_after(old(registry).calls(), final(registry).calls()),
            r,
        ),
        // The scenario passes exactly when the fulfill under the claim's retainer succeeds and the pact is not handed out at 9999.
        r is Ok <==> ({
            let m = made_after(old(registry).calls(), final(registry).calls());
            &&& m.len() == 3
            &&& handed_out(m[0], DOCKET@, 0)
            &&& fulfilled_by(m[1], handed(m[0]).retainer, true)
            &&& handed_out_nothing(m[2], DOCKET@, 9999)
        }),
{
    let ghost start = registry.calls();
    let first = claim_on(registry, DOCKET, 0);
    let ghost c1 = claim_call(DOCKET@, 0, first);
    let a = match first {
        Ok(Some(a)) => a,
        Ok(None) => {
            proof { lemma_calls_made(start, registry.calls(), seq![c1]); }
            return Err(ConformanceFailure::LateFulfillBeforeReclaimSucceeds("a pact should be claimable"));
        },
        Err(_) => {
            proof { lemma_calls_made(start, registry.calls(), seq![c1]); }
            return Err(ConformanceFailure::LateFulfillBeforeReclaimSucceeds("claim should not error"));
        },
    };
    // The lease has expired but nobody reclaimed; the holder's retainer still matches, so a
    // late fulfill of genuinely-done work settles. No time involved.
    let second = registry.fulfill(&a.retainer);
    let ghost c2 = fulfill_call(a.retainer, second);
    if second.is_err() {
        proof { lemma_calls_made(start, registry.calls(), seq![c1, c2]); }
        return Err(ConformanceFailure::LateFulfillBeforeReclaimSucceeds(
            "a late fulfill before any reclaim must settle",
        ));
    }
    let third = claim_on(registry, DOCKET, 9999);
    proof { lemma_calls_made(start, registry.calls(), seq![c1, c2, claim_call(DOCKET@, 9999, third)]); }
    match third {
        Ok(None) => Ok(()),
        Ok(Some(_)) => Err(ConformanceFailure::LateFulfillBeforeReclaimSucceeds(
            "a settled pact must not be claimable",
        )),
        Err(_) => Err(ConformanceFailure::LateFulfillBeforeReclaimSucceeds("claim should not error")),
    }
}

/// What [`fulfill_settles_and_pact_not_claimable`] does: it claims at 0, fulfills under the
/// claim's retainer, which must succeed, and claims at 0 again, which must hand out nothing.
pub open spec fn fulfill_settles_and_pact_not_claimable_outcome<E>(
    calls: Seq<RegistryCall<E>>,
    r: Result<(), ConformanceFailure>,
) -> bool {
    acts_then_unclaimable(
        calls,
        r,
        |retainer: Retainer, result: Result<(), E>| fulfill_call(retainer, result),
        |call: RegistryCall<E>| call->Fulfill_result,
        0,
        |m: &'static str| ConformanceFailure::FulfillSettlesAndPactNotClaimable(m),
        "fulfill should settle",
        "a fulfilled pact must not be claimable",
    )
}

/// Fulfilling settles the pact, which is then no longer claimable.
pub fn fulfill_settles_and_pact_not_claimable<R: Registry>(registry: &mut R) -> (r: Result<(), ConformanceFailure>)
    ensures
        continues(old(registry).calls(), final(registry).calls()),
        fulfill_settles_and_pact_not_claimable_outcome(
            made_after(old(registry).calls(), final(registry).calls()),
            r,
        ),
        // The scenario passes exactly when the fulfill under the claim's retainer succeeds and the pact is not handed out again at 0.
        r is Ok <==> ({
            let m = made_after(old(registry).calls(), final(registry).calls());
            &&& m.len() == 3
            &&& handed_out(m[0], DOCKET@, 0)
            &&& fulfilled_by(m[1], handed(m[0]).retainer, true)
            &&& handed_out_nothing(m[2], DOCKET@, 0)
        }),
{
    let ghost start = registry.calls();
    let first = claim_on(registry, DOCKET, 0);
    let ghost c1 = claim_call(DOCKET@, 0, first);
    let a = match first {
        Ok(Some(a)) => a,
        Ok(None) => {
            proof { lemma_calls_made(start, registry.calls(), seq![c1]); }
            return Err(ConformanceFailure::FulfillSettlesAndPactNotClaimable("a pact should be claimable"));
        },
        Err(_) => {
            proof { lemma_calls_made(start, registry.calls(), seq![c1]); }
            return Err(ConformanceFailure::FulfillSettlesAndPactNotClaimable("claim should not error"));
        },
    };
    let second = registry.fulfill(&a.retainer);
    let ghost c2 = fulfill_call(a.retainer, second);
    if second.is_err() {
        proof { lemma_calls_made(start, registry.calls(), seq![c1, c2]); }
        return Err(ConformanceFailure::FulfillSettlesAndPactNotClaimable("fulfill should settle"));
    }
    let third = claim_on(registry, DOCKET, 0);
    proof { lemma_calls_made(start, registry.calls(), seq![c1, c2, claim_call(DOCKET@, 0, third)]); }
    match third {
        Ok(None) => Ok(()),
        Ok(Some(_)) => Err(ConformanceFailure::FulfillSettlesAndPactNotClaimable(
            "a fulfilled pact must not be claimable",
        )),
        Err(_) => Err(ConformanceFailure::FulfillSettlesAndPactNotClaimable("claim should not error")),
    }
}

/// What [`breach_settles_terminally`] does: it claims at 0, breaches under the claim's
/// retainer, which must succeed, and claims at 5000, past the lease, which must hand out
/// nothing.
pub open spec fn breach_settles_terminally_outcome<E>(
    calls: Seq<RegistryCall<E>>,
    r: Result<(), ConformanceFailure>,
) -> bool {
    acts_then_unclaimable(
        calls,
        r,
        |retainer: Retainer, result: Result<(), E>| breach_call(retainer, result),
        |call: RegistryCall<E>| call->Breach_result,
        5000,
        |m: &'static str| ConformanceFailure::BreachSettlesTerminally(m),
        "breach should settle",
        "a breached pact must not be claimable, even after its lease would have expired",
    )
}

/// Breaching settles the pact for good: it is not claimable even past its lease.
pub fn breach_settles_terminally<R: Registry>(registry: &mut R) -> (r: Result<(), ConformanceFailure>)
    ensures
        continues(old(registry).calls(), final(registry).calls()),
        breach_settles_terminally_outcome(made_after(old(registry).calls(), final(registry).calls()), r),
        // The scenario passes exactly when the breach under the claim's retainer succeeds and the pact is not handed out at 5000, past its lease.
        r is Ok <==> ({
            let m = made_after(old(registry).calls(), final(registry).calls());
            &&& m.len() == 3
            &&& handed_out(m[0], DOCKET@, 0)
            &&& breached_by(m[1], handed(m[0]).retainer, true)
            &&& handed_out_nothing(m[2], DOCKET@, 5000)
        }),
{
    let ghost start = registry.calls();
    let first = claim_on(registry, DOCKET, 0);
    let ghost c1 = claim_call(DOCKET@, 0, first);
    let a = match first {
        Ok(Some(a)) => a,
        Ok(None) => {
            proof { lemma_calls_made(start, registry.calls(), seq![c1]); }
            return Err(ConformanceFailure::BreachSettlesTerminally("a pact should be claimable"));
        },
        Err(_) => {
            proof { lemma_calls_made(start, registry.calls(), seq![c1]); }
            return Err(ConformanceFailure::BreachSettlesTerminally("claim should not error"));
        },
    };
    let second = registry.breach(&a.retainer);
    let ghost c2 = breach_call(a.retainer, second);
    if second.is_err() {
        proof { lemma_calls_made(start, registry.calls(), seq![c1, c2]); }
        return Err(ConformanceFailure::BreachSettlesTerminally("breach should settle"));
    }
    let third = claim_on(registry, DOCKET, 5000);
    proof { lemma_calls_made(start, registry.calls(), seq![c1, c2, claim_call(DOCKET@, 5000, third)]); }
    match third {
        Ok(None) => Ok(()),
        Ok(Some(_)) => Err(ConformanceFailure::BreachSettlesTerminally(
            "a breached pact must not be claimable, even after its lease would have expired",
        )),
        Err(_) => Err(ConformanceFailure::BreachSettlesTerminally("claim should not error")),
    }
}

/// A heartbeat under `retainer` at `millis` that returned `result`.
pub open spec fn heartbeat_call<E>(retainer: Retainer, millis: u64, result: Result<(), E>) -> RegistryCall<E> {
    RegistryCall::Heartbeat { retainer, now: Timestamp::spec_at(millis), result }
}

/// What [`heartbeat_extends_lease_preventing_lapse`] does: it claims at 0, heartbeats under
/// the claim's retainer at 800, which must succeed, and claims at 1500, past the first lease
/// but within the extended one, which must hand out nothing.
pub open spec fn heartbeat_extends_lease_preventing_lapse_outcome<E>(
    calls: Seq<RegistryCall<E>>,
    r: Result<(), ConformanceFailure>,
) -> bool {
    acts_then_unclaimable(
        calls,
        r,
        |retainer: Retainer, result: Result<(), E>| heartbeat_call(retainer, 800, result),
        |call: RegistryCall<E>| call->Heartbeat_result,
        1500,
        |m: &'static str| ConformanceFailure::HeartbeatExtendsLeasePreventingLapse(m),
        "an in-window heartbeat should extend the lease",
        "a heartbeat within the window must prevent a lapse",
    )
}

/// An in-window heartbeat extends the lease, so the pact does not lapse when the first lease
/// would have.
pub fn heartbeat_extends_lease_preventing_lapse<R: Registry>(registry: &mut R) -> (r: Result<(), ConformanceFailure>)
    ensures
        continues(old(registry).calls(), final(registry).calls()),
        heartbeat_extends_lease_preventing_lapse_outcome(
            made_after(old(registry).calls(), final(registry).calls()),
            r,
        ),
        // The scenario passes exactly when the heartbeat at 800 under the claim's retainer succeeds and the pact is not handed out at 1500.
        r is Ok <==> ({
            let m = made_after(old(registry).calls(), final(registry).calls());
            &&& m.len() == 3
            &&& handed_out(m[0], DOCKET@, 0)
            &&& heartbeat_by(m[1], handed(m[0]).retainer, 800, true)
            &&& handed_out_nothing(m[2], DOCKET@, 1500)
        }),
{
    let ghost start = registry.calls();
    let first = claim_on(registry, DOCKET, 0);
    let ghost c1 = claim_call(DOCKET@, 0, first);
    let a = match first {
        Ok(Some(a)) => a,
        Ok(None) => {
            proof { lemma_calls_made(start, registry.calls(), seq![c1]); }
            return Err(ConformanceFailure::HeartbeatExtendsLeasePreventingLapse(
                "a pact should be claimable",
            ));
        },
        Err(_) => {
            proof { lemma_calls_made(start, registry.calls(), seq![c1]); }
            return Err(ConformanceFailure::HeartbeatExtendsLeasePreventingLapse("claim should not error"));
        },
    };
    let second = registry.heartbeat(&a.retainer, Timestamp::from_millis(800));
    let ghost c2 = heartbeat_call(a.retainer, 800, second);
    if second.is_err() {
        proof { lemma_calls_made(start, registry.calls(), seq![c1, c2]); }
        return Err(ConformanceFailure::HeartbeatExtendsLeasePreventingLapse(
            "an in-window heartbeat should extend the lease",
        ));
    }
    // The original lease (expiry 1000) would have lapsed by 1500, but the heartbeat pushed
    // expiry to 1800, so the pact is still held.
    let third = claim_on(registry, DOCKET, 1500);
    proof { lemma_calls_made(start, registry.calls(), seq![c1, c2, claim_call(DOCKET@, 1500, third)]); }
    match third {
        Ok(None) => Ok(()),
        Ok(Some(_)) => Err(ConformanceFailure::HeartbeatExtendsLeasePreventingLapse(
            "a heartbeat within the window must prevent a lapse",
        )),
        Err(_) => Err(ConformanceFailure::HeartbeatExtendsLeasePreventingLapse("claim should not error")),
    }
}

/// What [`heartbeat_on_lapsed_lease_rejected`] does: it claims at 0 and heartbeats under the
/// claim's retainer at 1200, after the lease expired, which must be refused.
pub open spec fn heartbeat_on_lapsed_lease_rejected_outcome<E>(
    calls: Seq<RegistryCall<E>>,
    r: Result<(), ConformanceFailure>,
) -> bool {
    let first = calls[0]->Claim_result;
    match first {
        Ok(Some(a)) => {
            let second = calls[1]->Heartbeat_result;
            &&& calls == seq![claim_call(DOCKET@, 0, first), heartbeat_call(a.retainer, 1200, second)]
            &&& r == if second is Ok {
                Err(ConformanceFailure::HeartbeatOnLapsedLeaseRejected(
                    "a heartbeat after the lease expired must be rejected, forcing a re-claim",
                ))
            } else {
                Ok(())
            }
        },
        _ => {
            &&& calls == seq![claim_call(DOCKET@, 0, first)]
            &&& r == Err::<(), ConformanceFailure>(
                ConformanceFailure::HeartbeatOnLapsedLeaseRejected(missing_claim(first)),
            )
        },
    }
}

/// A heartbeat after the lease expired is refused, forcing a re-claim.
pub fn heartbeat_on_lapsed_lease_rejected<R: Registry>(registry: &mut R) -> (r: Result<(), ConformanceFailure>)
    ensures
        continues(old(registry).calls(), final(registry).calls()),
        heartbeat_on_lapsed_lease_rejected_outcome(
            made_after(old(registry).calls(), final(registry).calls()),
            r,
        ),
        // The scenario passes exactly when the heartbeat at 1200 under the claim's retainer is refused.
        r is Ok <==> ({
            let m = made_after(old(registry).calls(), final(registry).calls());
            &&& m.len() == 2
            &&& handed_out(m[0], DOCKET@, 0)
            &&& heartbeat_by(m[1], handed(m[0]).retainer, 1200, false)
        }),
{
    let ghost start = registry.calls();
    let first = claim_on(registry, DOCKET, 0);
    let ghost c1 = claim_call(DOCKET@, 0, first);
    let a = match first {
        Ok(Some(a)) => a,
        Ok(None) => {
            proof { lemma_calls_made(start, registry.calls(), seq![c1]); }
            return Err(ConformanceFailure::HeartbeatOnLapsedLeaseRejected("a pact should be claimable"));
        },
        Err(_) => {
            proof { lemma_calls_made(start, registry.calls(), seq![c1]); }
            return Err(ConformanceFailure::HeartbeatOnLapsedLeaseRejected("claim should not error"));
        },
    };
    let second = registry.heartbeat(&a.retainer, Timestamp::from_millis(1200));
    proof { lemma_calls_made(start, registry.calls(), seq![c1, heartbeat_call(a.retainer, 1200, second)]); }
    if second.is_ok() {
        Err(ConformanceFailure::HeartbeatOnLapsedLeaseRejected(
            "a heartbeat after the lease expired must be rejected, forcing a re-claim",
        ))
    } else {
        Ok(())
    }
}

/// What [`heartbeat_unknown_retainer_rejected`] does: it claims at 0 and, when that hands out
/// a claim, heartbeats at 100 under a freshly minted retainer, which must be refused. The
/// minted retainer is random, so nothing is said of it.
pub open spec fn heartbeat_unknown_retainer_rejected_outcome<E>(
    calls: Seq<RegistryCall<E>>,
    r: Result<(), ConformanceFailure>,
) -> bool {
    let first = calls[0]->Claim_result;
    match first {
        Ok(Some(_)) => {
            let second = calls[1]->Heartbeat_result;
            &&& calls == seq![
                claim_call(DOCKET@, 0, first),
                heartbeat_call(calls[1]->Heartbeat_retainer, 100, second),
            ]
            &&& r == if second is Ok {
                Err(ConformanceFailure::HeartbeatUnknownRetainerRejected(
                    "a heartbeat with an unissued retainer must be rejected",
                ))
            } else {
                Ok(())
            }
        },
        _ => {
            &&& calls == seq![claim_call(DOCKET@, 0, first)]
            &&& r == Err::<(), ConformanceFailure>(
                ConformanceFailure::HeartbeatUnknownRetainerRejected(missing_claim(first)),
            )
        },
    }
}

/// A heartbeat with a retainer that was never issued is refused.
pub fn heartbeat_unknown_retainer_rejected<R: Registry>(registry: &mut R) -> (r: Result<(), ConformanceFailure>)
    ensures
        continues(old(registry).calls(), final(registry).calls()),
        heartbeat_unknown_retainer_rejected_outcome(
            made_after(old(registry).calls(), final(registry).calls()),
            r,
        ),
        // The scenario passes exactly when the heartbeat at 100 under a freshly minted retainer is refused.
        r is Ok <==> ({
            let m = made_after(old(registry).calls(), final(registry).calls());
            &&& m.len() == 2
            &&& handed_out(m[0], DOCKET@, 0)
            &&& heartbeat_by(m[1], m[1]->Heartbeat_retainer, 100, false)
            &&& minted(m[1]->Heartbeat_retainer.0)
        }),
{
    let ghost start = registry.calls();
    let first = claim_on(registry, DOCKET, 0);
    let ghost c1 = claim_call(DOCKET@, 0, first);
    match first {
        Ok(Some(_)) => {},
        Ok(None) => {
            proof { lemma_calls_made(start, registry.calls(), seq![c1]); }
            return Err(ConformanceFailure::HeartbeatUnknownRetainerRejected("a pact should be claimable"));
        },
        Err(_) => {
            proof { lemma_calls_made(start, registry.calls(), seq![c1]); }
            return Err(ConformanceFailure::HeartbeatUnknownRetainerRejected("claim should not error"));
        },
    }
    let id = fresh_uuid();
    proof {
        lemma_minted(id);
    }
    let unknown = Retainer::new(id);
    let second = registry.heartbeat(&unknown, Timestamp::from_millis(100));
    proof { lemma_calls_made(start, registry.calls(), seq![c1, heartbeat_call(unknown, 100, second)]); }
    if second.is_ok() {
        Err(ConformanceFailure::HeartbeatUnknownRetainerRejected(
            "a heartbeat with an unissued retainer must be rejected",
        ))
    } else {
        Ok(())
    }
}

/// How many scenarios the suite runs.
pub const SCENARIOS: usize = 12;

/// What scenario `k` of the suite, in the order [`run`] runs them, does on `calls`, reaching `r`.
pub open spec fn scenario_outcome<E>(k: int, calls: Seq<RegistryCall<E>>, r: Result<(), ConformanceFailure>) -> bool {
    if k == 0 {
        no_available_pact_returns_none_outcome(calls, r)
    } else if k == 1 {
        unrequested_docket_is_not_claimed_outcome(calls, r)
    } else if k == 2 {
        claim_returns_claim_with_lease_outcome(calls, r)
    } else if k == 3 {
        held_pact_not_reclaimable_before_expiry_outcome(calls, r)
    } else if k == 4 {
        expired_lease_lapses_and_reclaims_with_rotated_retainer_outcome(calls, r)
    } else if k == 5 {
        stale_retainer_settle_rejected_after_reclaim_outcome(calls, r)
    } else if k == 6 {
        late_fulfill_before_reclaim_succeeds_outcome(calls, r)
    } else if k == 7 {
        fulfill_settles_and_pact_not_claimable_outcome(calls, r)
    } else if k == 8 {
        breach_settles_terminally_outcome(calls, r)
    } else if k == 9 {
        heartbeat_extends_lease_preventing_lapse_outcome(calls, r)
    } else if k == 10 {
        heartbeat_on_lapsed_lease_rejected_outcome(calls, r)
    } else {
        heartbeat_unknown_retainer_rejected_outcome(calls, r)
    }
}

/// A pact of the suite's kind with an empty clause, on `docket`.
pub open spec fn suite_pact(p: Pact, docket: Seq<char>) -> bool {
    &&& p@.docket == docket
    &&& p@.kind == PACT_KIND@
    &&& p@.clause == Seq::<u8>::empty()
}

/// The pacts scenario `k` seeds its backend with: none for the first, one on [`OTHER_DOCKET`]
/// for the second, and one on [`DOCKET`] for every other.
pub open spec fn seeds_for(k: int, pacts: Seq<Pact>) -> bool {
    if k == 0 {
        pacts.len() == 0
    } else if k == 1 {
        pacts.len() == 1 && suite_pact(pacts[0], OTHER_DOCKET@)
    } else {
        pacts.len() == 1 && suite_pact(pacts[0], DOCKET@)
    }
}

/// Scenario `k` ran on a backend that `make` built as `built` from `pacts`, its seeds, and the
/// suite's lease, leaving it as `after` and reaching `v`.
pub open spec fn ran_on<R: Registry, F: Fn(Vec<Pact>, u64) -> R>(
    make: F,
    k: int,
    v: Result<(), ConformanceFailure>,
    pacts: Vec<Pact>,
    built: R,
    after: R,
) -> bool {
    &&& seeds_for(k, pacts@)
    &&& call_ensures(make, (pacts, LEASE_MILLIS), built)
    &&& continues(built.calls(), after.calls())
    &&& scenario_outcome(k, made_after(built.calls(), after.calls()), v)
}

/// Scenario `k` ran on a backend that `make` built with its seeds and the suite's lease, and
/// reached `v`.
pub open spec fn ran<R: Registry, F: Fn(Vec<Pact>, u64) -> R>(make: F, k: int, v: Result<(), ConformanceFailure>) -> bool {
    exists|pacts: Vec<Pact>, built: R, after: R| #[trigger] ran_on(make, k, v, pacts, built, after)
}

/// A pact of the suite's kind with an empty clause on `docket`, under a fresh identifier.
fn a_pact_on(docket: &str) -> (p: Pact)
    ensures
        suite_pact(p, docket@),
{
    Pact::new(fresh_uuid(), docket.to_owned(), PACT_KIND.to_owned(), Vec::new())
}

/// Build scenario `k`'s backend with `make` and run the scenario on it.
fn run_scenario<R: Registry, F: Fn(Vec<Pact>, u64) -> R>(make: &F, k: usize) -> (v: Result<(), ConformanceFailure>)
    requires
        k < SCENARIOS,
        forall|pacts: Vec<Pact>, lease_millis: u64| call_requires(*make, (pacts, lease_millis)),
    ensures
        ran(*make, k as int, v),
{
    let mut pacts: Vec<Pact> = Vec::new();
    if k == 1 {
        pacts.push(a_pact_on(OTHER_DOCKET));
    } else if k != 0 {
        pacts.push(a_pact_on(DOCKET));
    }
    let ghost seeds = pacts;
    let mut registry = make(pacts, LEASE_MILLIS);
    let ghost built = registry;
    let v = if k == 0 {
        no_available_pact_returns_none(&mut registry)
    } else if k == 1 {
        unrequested_docket_is_not_claimed(&mut registry)
    } else if k == 2 {
        claim_returns_claim_with_lease(&mut registry)
    } else if k == 3 {
        held_pact_not_reclaimable_before_expiry(&mut registry)
    } else if k == 4 {
        expired_lease_lapses_and_reclaims_with_rotated_retainer(&mut registry)
    } else if k == 5 {
        stale_retainer_settle_rejected_after_reclaim(&mut registry)
    } else if k == 6 {
        late_fulfill_before_reclaim_succeeds(&mut registry)
    } else if k == 7 {
        fulfill_settles_and_pact_not_claimable(&mut registry)
    } else if k == 8 {
        breach_settles_terminally(&mut registry)
    } else if k == 9 {
        heartbeat_extends_lease_preventing_lapse(&mut registry)
    } else if k == 10 {
        heartbeat_on_lapsed_lease_rejected(&mut registry)
    } else {
        heartbeat_unknown_retainer_rejected(&mut registry)
    };
    assert(ran_on(*make, k as int, v, seeds, built, registry));
    v
}

/// Run the full conformance suite against backends built by `make`.
///
/// `make(pacts, lease_millis)` must return a fresh registry seeded with `pacts` and leasing
/// claims for `lease_millis`. The suite calls it once per scenario, runs the scenarios in
/// order, and stops at the first that fails, returning its failure. On `Ok`, every scenario
/// passed; on `Err(f)`, every scenario before some scenario passed and that one failed with
/// `f`.
pub fn run<R: Registry, F: Fn(Vec<Pact>, u64) -> R>(make: F) -> (r: Result<(), ConformanceFailure>)
    requires
        forall|pacts: Vec<Pact>, lease_millis: u64| call_requires(make, (pacts, lease_millis)),
    ensures
        r is Ok ==> forall|k: int| 0 <= k < SCENARIOS ==> #[trigger] ran(make, k, Ok(())),
        r matches Err(f) ==> exists|k: int|
            0 <= k < SCENARIOS && #[trigger] ran(make, k, Err(f)) && forall|j: int|
                0 <= j < k ==> #[trigger] ran(make, j, Ok(())),
{
    let mut k: usize = 0;
    while k < SCENARIOS
        invariant
            k <= SCENARIOS,
            forall|pacts: Vec<Pact>, lease_millis: u64| call_requires(make, (pacts, lease_millis)),
            forall|j: int| 0 <= j < k ==> #[trigger] ran(make, j, Ok(())),
        decreases SCENARIOS - k,
    {
        let v = run_scenario(&make, k);
        if let Err(f) = v {
            assert(ran(make, k as int, Err(f)));
            return Err(f);
        }
        k = k + 1;
    }
    Ok(())
}

} // verus!
