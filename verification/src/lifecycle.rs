//! The lifecycle decisions, single-sourced: every backend and both bindings compose over
//! these pure functions, so the semantics of claim, heartbeat, settle, and release live here.
//!
//! A pact is available, held under a lease by a retainer, released until an instant, or
//! settled. A claim selects only a claimable pact (available, a lapsed hold, or a released
//! pact whose instant has come) and rotates the retainer. Only the current holder may
//! heartbeat, settle, or release; reclaim, not expiry, rotates authority.
use crate::contract::{group_timestamp, saturating_sum, Retainer, Timestamp};
use vstd::prelude::*;

verus! {

broadcast use group_timestamp;

/// The error of a transition attempted by a retainer that does not currently hold the pact
/// (or, for a heartbeat, whose lease has already lapsed).
#[derive(Debug, Clone, Copy, PartialEq, Eq, Structural)]
pub struct NotCurrentHolder;

/// The lifecycle state of one pact.
#[derive(Debug, Clone, Copy, PartialEq, Eq)]
pub enum State {
    /// Never claimed: claimable.
    Available,
    /// Claimed by `retainer`; the hold lapses after `expiry`.
    Held {
        /// The current holder.
        retainer: Retainer,
        /// The last instant at which the hold is still live.
        expiry: Timestamp,
    },
    /// Handed back by its holder; claimable again at or after `reclaimable_at`.
    Released {
        /// The first instant at which the pact may be claimed again.
        reclaimable_at: Timestamp,
    },
    /// Fulfilled or breached: terminal.
    Settled,
}

/// The instant a lease taken at `now` for `lease_millis` ends (saturating).
pub open spec fn spec_lease_expiry(now: Timestamp, lease_millis: u64) -> Timestamp {
    Timestamp::spec_at(saturating_sum(now.spec_millis() as int, lease_millis as int) as u64)
}

/// Whether a pact in `state` may be claimed at `now`.
pub open spec fn claimable(state: State, now: Timestamp) -> bool {
    match state {
        State::Available => true,
        State::Held { expiry, .. } => expiry.spec_millis() < now.spec_millis(),
        State::Released { reclaimable_at } => reclaimable_at.spec_millis() <= now.spec_millis(),
        State::Settled => false,
    }
}

/// Whether `state` is a hold by `retainer`.
pub open spec fn held_by(state: State, retainer: Retainer) -> bool {
    state matches State::Held { retainer: held, .. } && held == retainer
}

/// The heartbeat decision: the live holder's lease is extended to `now + lease_millis`.
pub open spec fn heartbeat_decision(
    state: State,
    retainer: Retainer,
    now: Timestamp,
    lease_millis: u64,
) -> Result<State, NotCurrentHolder> {
    match state {
        State::Held { retainer: held, expiry } => {
            if held == retainer && now.spec_millis() <= expiry.spec_millis() {
                Ok(State::Held { retainer, expiry: spec_lease_expiry(now, lease_millis) })
            } else {
                Err(NotCurrentHolder)
            }
        },
        _ => Err(NotCurrentHolder),
    }
}

/// The settlement decision (shared by fulfill and breach): the holder concludes the pact.
pub open spec fn settle_decision(state: State, retainer: Retainer) -> Result<State, NotCurrentHolder> {
    if held_by(state, retainer) {
        Ok(State::Settled)
    } else {
        Err(NotCurrentHolder)
    }
}

/// The release decision: the holder hands the pact back until `reclaimable_at`.
pub open spec fn release_decision(
    state: State,
    retainer: Retainer,
    reclaimable_at: Timestamp,
) -> Result<State, NotCurrentHolder> {
    if held_by(state, retainer) {
        Ok(State::Released { reclaimable_at })
    } else {
        Err(NotCurrentHolder)
    }
}

/// The instant a lease taken at `now` for `lease_millis` ends, saturating at the largest
/// representable instant.
pub fn lease_expiry(now: Timestamp, lease_millis: u64) -> (t: Timestamp)
    ensures
        t == spec_lease_expiry(now, lease_millis),
{
    now.plus_millis(lease_millis)
}

/// Whether a pact in `state` may be claimed at `now`: available, a hold whose lease lapsed
/// before `now`, or a release whose instant is at or before `now`; never a settled pact.
pub fn is_claimable(state: &State, now: Timestamp) -> (b: bool)
    ensures
        b == claimable(*state, now),
{
    match state {
        State::Available => true,
        State::Held { expiry, .. } => expiry.as_millis() < now.as_millis(),
        State::Released { reclaimable_at } => reclaimable_at.as_millis() <= now.as_millis(),
        State::Settled => false,
    }
}

/// The state a successful claim at `now` leaves: held by `retainer` for `lease_millis`.
pub fn on_claim(retainer: &Retainer, now: Timestamp, lease_millis: u64) -> (s: State)
    ensures
        s == (State::Held { retainer: *retainer, expiry: spec_lease_expiry(now, lease_millis) }),
{
    State::Held { retainer: *retainer, expiry: lease_expiry(now, lease_millis) }
}

/// Extend the lease of the live holder to `now + lease_millis`. A stranger, a lapsed hold
/// (expiry before `now`), or a pact not held is rejected.
pub fn on_heartbeat(
    state: &State,
    retainer: &Retainer,
    now: Timestamp,
    lease_millis: u64,
) -> (r: Result<State, NotCurrentHolder>)
    ensures
        r == heartbeat_decision(*state, *retainer, now, lease_millis),
{
    match state {
        State::Held { retainer: held, expiry } => {
            if held.same_as(retainer) && now.as_millis() <= expiry.as_millis() {
                Ok(State::Held { retainer: *retainer, expiry: lease_expiry(now, lease_millis) })
            } else {
                Err(NotCurrentHolder)
            }
        },
        _ => Err(NotCurrentHolder),
    }
}

/// Conclude the pact held by `retainer`. No time is involved: a holder whose lease lapsed
/// but whose pact nobody reclaimed still settles.
pub fn on_settle(state: &State, retainer: &Retainer) -> (r: Result<State, NotCurrentHolder>)
    ensures
        r == settle_decision(*state, *retainer),
{
    match state {
        State::Held { retainer: held, .. } => {
            if held.same_as(retainer) {
                Ok(State::Settled)
            } else {
                Err(NotCurrentHolder)
            }
        },
        _ => Err(NotCurrentHolder),
    }
}

/// Hand the pact held by `retainer` back, claimable again at or after `reclaimable_at`.
pub fn on_release(
    state: &State,
    retainer: &Retainer,
    reclaimable_at: Timestamp,
) -> (r: Result<State, NotCurrentHolder>)
    ensures
        r == release_decision(*state, *retainer, reclaimable_at),
{
    match state {
        State::Held { retainer: held, .. } => {
            if held.same_as(retainer) {
                Ok(State::Released { reclaimable_at })
            } else {
                Err(NotCurrentHolder)
            }
        },
        _ => Err(NotCurrentHolder),
    }
}

/// A lifecycle transition a backend applies to the pact a retainer holds, within its own
/// atomic scope: each variant is one of the kernel decisions above, so a backend never
/// decides a transition itself.
#[derive(Debug, Clone, Copy, PartialEq, Eq)]
pub enum Transition {
    /// Extend the live holder's lease (see [`on_heartbeat`]).
    Heartbeat {
        /// The claimed holder.
        retainer: Retainer,
        /// When the heartbeat arrives.
        now: Timestamp,
        /// The backend's lease duration.
        lease_millis: u64,
    },
    /// Conclude the pact, fulfilled or breached (see [`on_settle`]).
    Settle {
        /// The claimed holder.
        retainer: Retainer,
    },
    /// Hand the pact back until an instant (see [`on_release`]).
    Release {
        /// The claimed holder.
        retainer: Retainer,
        /// The first instant the pact may be claimed again.
        reclaimable_at: Timestamp,
    },
}

impl Transition {
    /// The retainer on whose authority the transition is attempted.
    pub open spec fn holder(self) -> Retainer {
        match self {
            Transition::Heartbeat { retainer, .. } => retainer,
            Transition::Settle { retainer } => retainer,
            Transition::Release { retainer, .. } => retainer,
        }
    }

    /// The kernel decision this transition stands for, on `state`.
    pub open spec fn decide(self, state: State) -> Result<State, NotCurrentHolder> {
        match self {
            Transition::Heartbeat { retainer, now, lease_millis } => heartbeat_decision(
                state,
                retainer,
                now,
                lease_millis,
            ),
            Transition::Settle { retainer } => settle_decision(state, retainer),
            Transition::Release { retainer, reclaimable_at } => release_decision(
                state,
                retainer,
                reclaimable_at,
            ),
        }
    }

    /// Run the decision on `state`.
    pub fn apply(&self, state: &State) -> (r: Result<State, NotCurrentHolder>)
        ensures
            r == self.decide(*state),
    {
        match self {
            Transition::Heartbeat { retainer, now, lease_millis } => on_heartbeat(
                state,
                retainer,
                *now,
                *lease_millis,
            ),
            Transition::Settle { retainer } => on_settle(state, retainer),
            Transition::Release { retainer, reclaimable_at } => on_release(
                state,
                retainer,
                *reclaimable_at,
            ),
        }
    }
}

/// One round of the compare-and-set transition port, for a backend whose only atomic
/// primitive is set-if-unchanged: from the state `load` returned for the retainer, decide the
/// swap to attempt. No state means the retainer holds nothing; a rejected decision is the
/// lost authority. The caller swaps `expected` for `next` and, when the swap did not apply
/// (the state moved under it), loads and decides again.
pub fn cas_round(loaded: Option<State>, transition: &Transition) -> (r: Result<
    (State, State),
    NotCurrentHolder,
>)
    ensures
        match loaded {
            None => r == Err::<(State, State), NotCurrentHolder>(NotCurrentHolder),
            Some(current) => match transition.decide(current) {
                Ok(next) => r == Ok::<(State, State), NotCurrentHolder>((current, next)),
                Err(e) => r == Err::<(State, State), NotCurrentHolder>(e),
            },
        },
{
    match loaded {
        None => Err(NotCurrentHolder),
        Some(current) => match transition.apply(&current) {
            Ok(next) => Ok((current, next)),
            Err(e) => Err(e),
        },
    }
}

/// A settled pact is terminal: it is never claimable again, whatever the time, and no
/// transition (heartbeat, settle, release) applies to it.
pub proof fn law_settled_is_terminal(now: Timestamp, transition: Transition)
    ensures
        !claimable(State::Settled, now),
        transition.decide(State::Settled) is Err,
{
}

/// A held pact is reclaimable exactly when its lease has lapsed: never at or before its expiry,
/// always after it.
pub proof fn law_hold_lapses_only_after_expiry(retainer: Retainer, expiry: Timestamp, now: Timestamp)
    ensures
        claimable(State::Held { retainer, expiry }, now) <==> expiry.spec_millis()
            < now.spec_millis(),
{
}

/// A released pact is withheld before its reclaimable instant and claimable at or after it.
pub proof fn law_release_withholds_until_instant(reclaimable_at: Timestamp, now: Timestamp)
    ensures
        claimable(State::Released { reclaimable_at }, now) <==> reclaimable_at.spec_millis()
            <= now.spec_millis(),
{
}

/// Authority rests on the holder: a transition is accepted only on a pact held by its retainer.
pub proof fn law_only_the_holder_transitions(transition: Transition, state: State)
    ensures
        transition.decide(state) is Ok ==> held_by(state, transition.holder()),
{
}

/// Reclaim, not expiry, rotates authority: a holder whose lease lapsed but whose pact nobody
/// reclaimed still settles, and still releases.
pub proof fn law_lapsed_holder_still_settles(
    retainer: Retainer,
    expiry: Timestamp,
    reclaimable_at: Timestamp,
)
    ensures
        settle_decision(State::Held { retainer, expiry }, retainer) == Ok::<
            State,
            NotCurrentHolder,
        >(State::Settled),
        release_decision(State::Held { retainer, expiry }, retainer, reclaimable_at) == Ok::<
            State,
            NotCurrentHolder,
        >(State::Released { reclaimable_at }),
{
}

/// A heartbeat within the lease extends it to `now + lease`; a heartbeat after the lease
/// lapsed is rejected, forcing a re-claim.
pub proof fn law_heartbeat_extends_only_a_live_lease(
    retainer: Retainer,
    expiry: Timestamp,
    now: Timestamp,
    lease_millis: u64,
)
    ensures
        now.spec_millis() <= expiry.spec_millis() ==> heartbeat_decision(
            State::Held { retainer, expiry },
            retainer,
            now,
            lease_millis,
        ) == Ok::<State, NotCurrentHolder>(
            State::Held { retainer, expiry: spec_lease_expiry(now, lease_millis) },
        ),
        expiry.spec_millis() < now.spec_millis() ==> heartbeat_decision(
            State::Held { retainer, expiry },
            retainer,
            now,
            lease_millis,
        ) is Err,
{
}

/// A claim at `now` leaves a hold that is not reclaimable until `now + lease` has passed.
pub proof fn law_fresh_claim_is_not_reclaimable_within_lease(
    retainer: Retainer,
    now: Timestamp,
    lease_millis: u64,
    later: Timestamp,
)
    requires
        later.spec_millis() <= now.spec_millis() + lease_millis,
    ensures
        !claimable(
            State::Held { retainer, expiry: spec_lease_expiry(now, lease_millis) },
            later,
        ),
{
}

} // verus!
