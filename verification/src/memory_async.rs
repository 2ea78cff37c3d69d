//! The state of the in-memory reference backend of the async binding: a native claim
//! selection and the transition port, whose atomic scope is one exclusive borrow. The async
//! surface wraps these in its runtime; the decisions are the same lifecycle kernel.
use crate::contract::{Claim, Pact, Retainer, Timestamp};
use crate::contract::{docket_names, minted};
use crate::ledger::{holder_transition, Entry, Ledger};
use crate::lifecycle::{NotCurrentHolder, State, Transition};
use crate::memory::{claim_agrees, transition_agrees, NotHeld as SyncNotHeld};
use vstd::prelude::*;

verus! {

/// The error returned when a retainer is not the current holder of any claim (a stale,
/// settled, or lapsed-and-reclaimed retainer, or a heartbeat after the lease already lapsed).
#[derive(Debug, Clone, Copy, PartialEq, Eq, Structural)]
pub struct NotHeld;

impl From<NotCurrentHolder> for NotHeld {
    fn from(_lost: NotCurrentHolder) -> (r: NotHeld) {
        NotHeld
    }
}

impl vstd::std_specs::convert::FromSpecImpl<NotCurrentHolder> for NotHeld {
    open spec fn obeys_from_spec() -> bool {
        true
    }

    open spec fn from_spec(v: NotCurrentHolder) -> NotHeld {
        NotHeld
    }
}

/// An in-memory async-binding registry seeded with a fixed set of pacts.
pub struct MemoryRegistryAsync {
    ledger: Ledger,
}

impl MemoryRegistryAsync {
    /// Each pact with its lifecycle state, in order.
    pub closed spec fn entries(&self) -> Seq<Entry> {
        self.ledger.entries()
    }

    /// The lease duration claims are granted for.
    pub closed spec fn lease(&self) -> u64 {
        self.ledger.lease()
    }

    /// Create an empty registry that leases claims for `lease_millis`.
    pub fn new(lease_millis: u64) -> (r: MemoryRegistryAsync)
        ensures
            r.entries() == Seq::<Entry>::empty(),
            r.lease() == lease_millis,
    {
        let r = Self::seeded(Vec::new(), lease_millis);
        assert(r.entries() =~= Seq::<Entry>::empty());
        r
    }

    /// Create a registry holding `pacts`, each available to claim, leasing claims for
    /// `lease_millis`.
    pub fn seeded(pacts: Vec<Pact>, lease_millis: u64) -> (r: MemoryRegistryAsync)
        ensures
            r.entries().len() == pacts@.len(),
            forall|i: int|
                0 <= i < pacts@.len() ==> #[trigger] r.entries()[i] == (pacts@[i]@, State::Available),
            r.lease() == lease_millis,
    {
        MemoryRegistryAsync { ledger: Ledger::seeded(pacts, lease_millis) }
    }

    /// The backend's lease duration in milliseconds.
    pub fn lease_millis(&self) -> (m: u64)
        ensures
            m == self.lease(),
    {
        self.ledger.lease_millis()
    }

    /// Claim the first eligible pact from one of `dockets` at `now`, minting a fresh retainer.
    pub fn claim(&mut self, dockets: &[&str], now: Timestamp) -> (r: Result<Option<Claim>, NotHeld>)
        ensures
            final(self).lease() == old(self).lease(),
            r matches Ok(c) && claim_agrees(
                old(self).entries(),
                final(self).entries(),
                old(self).lease(),
                docket_names(dockets@),
                now,
                c,
            ),
            r matches Ok(Some(c)) ==> minted(c.retainer.0),
    {
        Ok(self.ledger.claim(dockets, now))
    }

    /// Apply `transition` within this backend's atomic scope to the pact `retainer` holds:
    /// load, decide, and store without letting go. Authority rests on locating the pact the
    /// retainer holds, not on the transition: a retainer that holds nothing is rejected,
    /// whatever the transition would accept.
    pub fn apply(&mut self, retainer: &Retainer, transition: &Transition) -> (r: Result<(), NotHeld>)
        ensures
            final(self).lease() == old(self).lease(),
            match holder_transition(old(self).entries(), *retainer, *transition) {
                Some(es) => r is Ok && final(self).entries() == es,
                None => r is Err && final(self).entries() == old(self).entries(),
            },
    {
        match self.ledger.apply_to_holder(retainer, transition) {
            Ok(()) => Ok(()),
            Err(_) => Err(NotHeld),
        }
    }
}

/// The two bindings agree: a transition applied through the async transition port on its own
/// retainer's authority changes the pacts exactly as the synchronous registry operation does,
/// and succeeds exactly when it does.
pub proof fn law_bindings_agree(
    before: Seq<Entry>,
    after_sync: Seq<Entry>,
    after_async: Seq<Entry>,
    transition: Transition,
    sync_result: Result<(), SyncNotHeld>,
    async_result: Result<(), NotHeld>,
)
    requires
        transition_agrees(before, after_sync, transition, sync_result),
        match holder_transition(before, transition.holder(), transition) {
            Some(es) => async_result is Ok && after_async == es,
            None => async_result is Err && after_async == before,
        },
    ensures
        after_sync == after_async,
        sync_result is Ok <==> async_result is Ok,
{
}

} // verus!
