//! The in-memory reference [`Registry`]: a pure lifecycle state machine that holds pacts,
//! leases claims for a user-supplied duration, reclaims lapsed pacts through the normal claim
//! path, and rotates the retainer on every claim so a stale holder cannot settle. It reads
//! no clock: time is injected into `claim` and `heartbeat`.
use crate::contract::{
    docket_names, group_timestamp, minted, Claim, Pact, Registry, RegistryCall, Retainer, Timestamp,
};
use crate::ledger::{
    first_eligible, first_held, holder_transition, lemma_first_eligible, lemma_first_held,
    with_state, Entry, Ledger,
};
use crate::lifecycle::{claimable, held_by, spec_lease_expiry, State, Transition};
use vstd::prelude::*;

verus! {

broadcast use group_timestamp;

/// The error a memory registry returns when a retainer is not the current holder, or when a
/// heartbeat arrives after its lease has already lapsed.
#[derive(Debug, Clone, Copy, PartialEq, Eq, Structural)]
pub struct NotHeld;

/// What `claim` does to `entries` at `now`, and what it returns: the first pact claimable from
/// `dockets` is held by the returned retainer until `now + lease`; with none, nothing changes.
pub open spec fn claim_agrees(
    before: Seq<Entry>,
    after: Seq<Entry>,
    lease_millis: u64,
    dockets: Seq<Seq<char>>,
    now: Timestamp,
    r: Option<Claim>,
) -> bool {
    match first_eligible(before, dockets, now, 0) {
        None => r is None && after == before,
        Some(i) => r matches Some(c) && {
            &&& c.pact@ == before[i].0
            &&& c.lease_expiry == spec_lease_expiry(now, lease_millis)
            &&& after == with_state(
                before,
                i,
                State::Held { retainer: c.retainer, expiry: c.lease_expiry },
            )
        },
    }
}

/// What a transition by the holder does to `entries`, and what it returns: the decision is
/// applied to the pact the retainer holds; a stranger or a rejected decision changes nothing.
pub open spec fn transition_agrees<E>(
    before: Seq<Entry>,
    after: Seq<Entry>,
    transition: Transition,
    r: Result<(), E>,
) -> bool {
    match holder_transition(before, transition.holder(), transition) {
        Some(es) => r is Ok && after == es,
        None => r is Err && after == before,
    }
}

/// Fulfilling and breaching are one settlement under the retainer's authority: from the same
/// entries, a fulfill and a breach by the same retainer leave the same entries and give the
/// same answer.
pub proof fn law_fulfill_and_breach_settle_alike(
    before: Seq<Entry>,
    after_fulfill: Seq<Entry>,
    after_breach: Seq<Entry>,
    retainer: Retainer,
    fulfilled: Result<(), NotHeld>,
    breached: Result<(), NotHeld>,
)
    requires
        transition_agrees(before, after_fulfill, Transition::Settle { retainer }, fulfilled),
        transition_agrees(before, after_breach, Transition::Settle { retainer }, breached),
    ensures
        after_fulfill == after_breach,
        fulfilled == breached,
{
    match (fulfilled, breached) {
        (Ok(a), Ok(b)) => assert(a == b),
        (Err(a), Err(b)) => assert(a == b),
        _ => {},
    }
}

/// A claim under a retainer that held no pact before it leaves that retainer holding exactly
/// the claimed pact: the first eligible one, leased until the claim's expiry, and no other.
/// (A claim's retainer is a fresh random draw, see `minted`; that it held nothing before is
/// what the draw being new means.)
pub proof fn law_claim_retainer_holds_only_the_claimed_pact(
    before: Seq<Entry>,
    after: Seq<Entry>,
    lease_millis: u64,
    dockets: Seq<Seq<char>>,
    now: Timestamp,
    claim: Claim,
)
    requires
        forall|k: int| 0 <= k < before.len() ==> !held_by(#[trigger] before[k].1, claim.retainer),
        claim_agrees(before, after, lease_millis, dockets, now, Some(claim)),
    ensures
        first_eligible(before, dockets, now, 0) matches Some(i) && after[i].1 == (State::Held {
            retainer: claim.retainer,
            expiry: claim.lease_expiry,
        }) && forall|k: int|
            0 <= k < after.len() && held_by(#[trigger] after[k].1, claim.retainer) ==> k == i,
{
    lemma_claim_holds(before, after, lease_millis, dockets, now, claim);
}

/// A claim takes a pact only from a requested docket.
pub proof fn law_claim_only_from_requested_dockets(
    before: Seq<Entry>,
    after: Seq<Entry>,
    lease_millis: u64,
    dockets: Seq<Seq<char>>,
    now: Timestamp,
    claim: Claim,
)
    requires
        claim_agrees(before, after, lease_millis, dockets, now, Some(claim)),
    ensures
        dockets.contains(claim.pact@.docket),
{
    lemma_first_eligible(before, dockets, now, 0);
}

/// A settled pact stays settled: no claim takes it and no transition touches it.
pub proof fn law_settled_stays_settled(
    before: Seq<Entry>,
    after_claim: Seq<Entry>,
    after_transition: Seq<Entry>,
    lease_millis: u64,
    dockets: Seq<Seq<char>>,
    now: Timestamp,
    claimed: Option<Claim>,
    transition: Transition,
    result: Result<(), NotHeld>,
    k: int,
)
    requires
        0 <= k < before.len(),
        before[k].1 == State::Settled,
        claim_agrees(before, after_claim, lease_millis, dockets, now, claimed),
        transition_agrees(before, after_transition, transition, result),
    ensures
        after_claim[k] == before[k],
        after_transition[k] == before[k],
{
    lemma_first_eligible(before, dockets, now, 0);
    lemma_first_held(before, transition.holder(), 0);
}

/// A freshly claimed pact is held by its claim's retainer alone, when the minted retainer held
/// nothing before.
proof fn lemma_claim_holds(
    before: Seq<Entry>,
    after: Seq<Entry>,
    lease_millis: u64,
    dockets: Seq<Seq<char>>,
    now: Timestamp,
    claim: Claim,
)
    requires
        forall|k: int| 0 <= k < before.len() ==> !held_by(#[trigger] before[k].1, claim.retainer),
        claim_agrees(before, after, lease_millis, dockets, now, Some(claim)),
    ensures
        first_eligible(before, dockets, now, 0) matches Some(i) && first_held(
            after,
            claim.retainer,
            0,
        ) == Some(i) && after[i].1 == (State::Held {
            retainer: claim.retainer,
            expiry: claim.lease_expiry,
        }),
        forall|k: int|
            0 <= k < after.len() && held_by(#[trigger] after[k].1, claim.retainer) ==> first_eligible(
                before,
                dockets,
                now,
                0,
            ) == Some(k),
{
    lemma_first_eligible(before, dockets, now, 0);
    lemma_first_held(after, claim.retainer, 0);
}

/// Reclaim rotates authority: once a lapsed pact is reclaimed under a new retainer, its prior
/// holder can no longer settle it (at-least-once safety). The minted retainer is assumed to be
/// fresh, as a random identifier is.
pub proof fn law_reclaim_fences_the_prior_holder(
    start: Seq<Entry>,
    claimed: Seq<Entry>,
    reclaimed: Seq<Entry>,
    after: Seq<Entry>,
    lease_millis: u64,
    dockets: Seq<Seq<char>>,
    first_at: Timestamp,
    second_at: Timestamp,
    first: Claim,
    second: Claim,
    settled: Result<(), NotHeld>,
)
    requires
        forall|k: int| 0 <= k < start.len() ==> !held_by(#[trigger] start[k].1, first.retainer),
        claim_agrees(start, claimed, lease_millis, dockets, first_at, Some(first)),
        claim_agrees(claimed, reclaimed, lease_millis, dockets, second_at, Some(second)),
        first_eligible(claimed, dockets, second_at, 0) == first_eligible(
            start,
            dockets,
            first_at,
            0,
        ),
        second.retainer != first.retainer,
        transition_agrees(reclaimed, after, Transition::Settle { retainer: first.retainer }, settled),
    ensures
        settled is Err,
        after == reclaimed,
{
    lemma_claim_holds(start, claimed, lease_millis, dockets, first_at, first);
    lemma_first_eligible(claimed, dockets, second_at, 0);
    let i = first_eligible(start, dockets, first_at, 0)->0;
    assert forall|k: int| 0 <= k < reclaimed.len() implies !held_by(
        #[trigger] reclaimed[k].1,
        first.retainer,
    ) by {
        if k != i {
            assert(reclaimed[k] == claimed[k]);
        }
    }
    lemma_first_held(reclaimed, first.retainer, 0);
}

/// A late fulfill before any reclaim settles: once claimed, the holder settles its pact however
/// much time has passed, as long as nobody reclaimed it.
pub proof fn law_holder_settles_until_reclaimed(
    start: Seq<Entry>,
    claimed: Seq<Entry>,
    after: Seq<Entry>,
    lease_millis: u64,
    dockets: Seq<Seq<char>>,
    now: Timestamp,
    claim: Claim,
    settled: Result<(), NotHeld>,
)
    requires
        forall|k: int| 0 <= k < start.len() ==> !held_by(#[trigger] start[k].1, claim.retainer),
        claim_agrees(start, claimed, lease_millis, dockets, now, Some(claim)),
        transition_agrees(claimed, after, Transition::Settle { retainer: claim.retainer }, settled),
    ensures
        settled is Ok,
        first_eligible(start, dockets, now, 0) matches Some(i) && after == with_state(
            claimed,
            i,
            State::Settled,
        ),
{
    lemma_claim_holds(start, claimed, lease_millis, dockets, now, claim);
}

/// A heartbeat within the lease keeps the pact held: no claim up to `now + lease` takes it.
pub proof fn law_heartbeat_prevents_lapse(
    held: Seq<Entry>,
    beaten: Seq<Entry>,
    after: Seq<Entry>,
    lease_millis: u64,
    dockets: Seq<Seq<char>>,
    retainer: Retainer,
    expiry: Timestamp,
    now: Timestamp,
    later: Timestamp,
    result: Result<(), NotHeld>,
    claimed: Option<Claim>,
    i: int,
)
    requires
        first_held(held, retainer, 0) == Some(i),
        held[i].1 == (State::Held { retainer, expiry }),
        now.spec_millis() <= expiry.spec_millis(),
        later.spec_millis() <= now.spec_millis() + lease_millis,
        transition_agrees(
            held,
            beaten,
            Transition::Heartbeat { retainer, now, lease_millis },
            result,
        ),
        claim_agrees(beaten, after, lease_millis, dockets, later, claimed),
    ensures
        result is Ok,
        beaten[i].1 == (State::Held { retainer, expiry: spec_lease_expiry(now, lease_millis) }),
        after[i] == beaten[i],
{
    lemma_first_held(held, retainer, 0);
    lemma_first_eligible(beaten, dockets, later, 0);
    assert(!claimable(beaten[i].1, later));
}

/// A release hands the pact back: it is withheld from every claim before its reclaimable
/// instant.
pub proof fn law_release_withholds_the_pact(
    held: Seq<Entry>,
    released: Seq<Entry>,
    after: Seq<Entry>,
    lease_millis: u64,
    dockets: Seq<Seq<char>>,
    retainer: Retainer,
    reclaimable_at: Timestamp,
    now: Timestamp,
    result: Result<(), NotHeld>,
    claimed: Option<Claim>,
    i: int,
)
    requires
        first_held(held, retainer, 0) == Some(i),
        now.spec_millis() < reclaimable_at.spec_millis(),
        transition_agrees(held, released, Transition::Release { retainer, reclaimable_at }, result),
        claim_agrees(released, after, lease_millis, dockets, now, claimed),
    ensures
        result is Ok,
        released[i].1 == (State::Released { reclaimable_at }),
        after[i] == released[i],
{
    lemma_first_held(held, retainer, 0);
    lemma_first_eligible(released, dockets, now, 0);
}

/// A release is non-terminal and hands authority back: the released pact is claimable again
/// from its reclaimable instant on, and the releasing retainer, holding nothing any more, is
/// rejected by every later transition (when it held only that pact).
pub proof fn law_release_relinquishes_authority(
    held: Seq<Entry>,
    released: Seq<Entry>,
    retainer: Retainer,
    reclaimable_at: Timestamp,
    result: Result<(), NotHeld>,
    later: Timestamp,
    next: Transition,
)
    requires
        forall|j: int, k: int|
            0 <= j < held.len() && 0 <= k < held.len() && held_by(#[trigger] held[j].1, retainer)
                && held_by(#[trigger] held[k].1, retainer) ==> j == k,
        first_held(held, retainer, 0) is Some,
        transition_agrees(held, released, Transition::Release { retainer, reclaimable_at }, result),
        reclaimable_at.spec_millis() <= later.spec_millis(),
    ensures
        result is Ok,
        claimable(released[first_held(held, retainer, 0)->0].1, later),
        holder_transition(released, retainer, next) is None,
{
    lemma_first_held(held, retainer, 0);
    let i = first_held(held, retainer, 0)->0;
    assert forall|k: int| 0 <= k < released.len() implies !held_by(
        #[trigger] released[k].1,
        retainer,
    ) by {
        if k != i {
            assert(released[k] == held[k]);
        }
    }
    lemma_first_held(released, retainer, 0);
}

/// Settlement applies at most once: once the holder has settled its pact, a second settlement
/// with the same retainer is rejected and changes nothing (when no other pact is held by it).
pub proof fn law_settlement_applies_at_most_once(
    before: Seq<Entry>,
    settled: Seq<Entry>,
    after: Seq<Entry>,
    retainer: Retainer,
    first: Result<(), NotHeld>,
    second: Result<(), NotHeld>,
)
    requires
        forall|j: int, k: int|
            0 <= j < before.len() && 0 <= k < before.len() && held_by(
                #[trigger] before[j].1,
                retainer,
            ) && held_by(#[trigger] before[k].1, retainer) ==> j == k,
        transition_agrees(before, settled, Transition::Settle { retainer }, first),
        transition_agrees(settled, after, Transition::Settle { retainer }, second),
    ensures
        second is Err,
        after == settled,
{
    lemma_first_held(before, retainer, 0);
    if first is Ok {
        let i = first_held(before, retainer, 0)->0;
        assert forall|k: int| 0 <= k < settled.len() implies !held_by(
            #[trigger] settled[k].1,
            retainer,
        ) by {
            if k != i {
                assert(settled[k] == before[k]);
            }
        }
    }
    lemma_first_held(settled, retainer, 0);
}

/// An in-memory registry seeded with a fixed set of pacts.
pub struct MemoryRegistry {
    ledger: Ledger,
    log: Ghost<Seq<RegistryCall<NotHeld>>>,
}

impl MemoryRegistry {
    /// Each pact with its lifecycle state, in order.
    pub closed spec fn entries(&self) -> Seq<Entry> {
        self.ledger.entries()
    }

    /// The lease duration claims are granted for.
    pub closed spec fn lease(&self) -> u64 {
        self.ledger.lease()
    }

    /// Create an empty registry that leases claims for `lease_millis`.
    pub fn new(lease_millis: u64) -> (r: MemoryRegistry)
        ensures
            r.entries() == Seq::<Entry>::empty(),
            r.lease() == lease_millis,
            r.calls() == Seq::<RegistryCall<NotHeld>>::empty(),
    {
        let r = Self::seeded(Vec::new(), lease_millis);
        assert(r.entries() =~= Seq::<Entry>::empty());
        r
    }

    /// Create a registry holding `pacts`, each available to claim, leasing claims for
    /// `lease_millis`.
    pub fn seeded(pacts: Vec<Pact>, lease_millis: u64) -> (r: MemoryRegistry)
        ensures
            r.entries().len() == pacts@.len(),
            forall|i: int|
                0 <= i < pacts@.len() ==> #[trigger] r.entries()[i] == (pacts@[i]@, State::Available),
            r.lease() == lease_millis,
            r.calls() == Seq::<RegistryCall<NotHeld>>::empty(),
    {
        MemoryRegistry { ledger: Ledger::seeded(pacts, lease_millis), log: Ghost(Seq::empty()) }
    }

    /// Apply `transition` on the authority of its retainer.
    fn transition(&mut self, transition: &Transition) -> (r: Result<(), NotHeld>)
        ensures
            final(self).lease() == old(self).lease(),
            final(self).log == old(self).log,
            transition_agrees(old(self).entries(), final(self).entries(), *transition, r),
    {
        let retainer = match transition {
            Transition::Heartbeat { retainer, .. } => retainer,
            Transition::Settle { retainer } => retainer,
            Transition::Release { retainer, .. } => retainer,
        };
        match self.ledger.apply_to_holder(retainer, transition) {
            Ok(()) => Ok(()),
            Err(_) => Err(NotHeld),
        }
    }
}

impl Registry for MemoryRegistry {
    type Error = NotHeld;

    closed spec fn calls(&self) -> Seq<RegistryCall<NotHeld>> {
        self.log@
    }

    fn claim(&mut self, dockets: &[&str], now: Timestamp) -> (r: Result<Option<Claim>, NotHeld>)
        ensures
            final(self).lease() == old(self).lease(),
            r matches Ok(c) && claim_agrees(
                old(self).entries(),
                final(self).entries(),
                old(self).lease(),
                docket_names(dockets@),
                now,
                c,
            ),
            r matches Ok(Some(c)) ==> minted(c.retainer.0),
    {
        let r = Ok(self.ledger.claim(dockets, now));
        proof {
            self.log@ = self.log@.push(
                RegistryCall::Claim { dockets: docket_names(dockets@), now, result: r },
            );
        }
        r
    }

    fn heartbeat(&mut self, retainer: &Retainer, now: Timestamp) -> (r: Result<(), NotHeld>)
        ensures
            final(self).lease() == old(self).lease(),
            transition_agrees(
                old(self).entries(),
                final(self).entries(),
                Transition::Heartbeat { retainer: *retainer, now, lease_millis: old(self).lease() },
                r,
            ),
    {
        // Refuse to revive a lapsed lease: the holder must re-claim.
        let transition = Transition::Heartbeat {
            retainer: *retainer,
            now,
            lease_millis: self.ledger.lease_millis(),
        };
        let r = self.transition(&transition);
        proof {
            self.log@ = self.log@.push(RegistryCall::Heartbeat { retainer: *retainer, now, result: r });
        }
        r
    }

    // fulfill and breach share the same authority check: a stale retainer no longer matches
    // the rotated current holder, so no time is needed to reject it.
    fn fulfill(&mut self, retainer: &Retainer) -> (r: Result<(), NotHeld>)
        ensures
            final(self).lease() == old(self).lease(),
            transition_agrees(
                old(self).entries(),
                final(self).entries(),
                Transition::Settle { retainer: *retainer },
                r,
            ),
    {
        let r = self.transition(&Transition::Settle { retainer: *retainer });
        proof {
            self.log@ = self.log@.push(RegistryCall::Fulfill { retainer: *retainer, result: r });
        }
        r
    }

    fn breach(&mut self, retainer: &Retainer) -> (r: Result<(), NotHeld>)
        ensures
            final(self).lease() == old(self).lease(),
            transition_agrees(
                old(self).entries(),
                final(self).entries(),
                Transition::Settle { retainer: *retainer },
                r,
            ),
    {
        let r = self.transition(&Transition::Settle { retainer: *retainer });
        proof {
            self.log@ = self.log@.push(RegistryCall::Breach { retainer: *retainer, result: r });
        }
        r
    }

    fn release(&mut self, retainer: &Retainer, reclaimable_at: Timestamp) -> (r: Result<
        (),
        NotHeld,
    >)
        ensures
            final(self).lease() == old(self).lease(),
            transition_agrees(
                old(self).entries(),
                final(self).entries(),
                Transition::Release { retainer: *retainer, reclaimable_at },
                r,
            ),
    {
        let r = self.transition(&Transition::Release { retainer: *retainer, reclaimable_at });
        proof {
            self.log@ = self.log@.push(
                RegistryCall::Release { retainer: *retainer, reclaimable_at, result: r },
            );
        }
        r
    }
}

} // verus!
