//! The state shared by the in-memory reference backends: an ordered list of pacts, each with
//! its lifecycle state, and the lease duration claims are granted for.
use crate::contract::{docket_names, fresh_uuid, group_timestamp, lemma_minted, minted, Claim, Pact, PactView, Retainer, Timestamp};
use crate::lifecycle::{
    claimable, held_by, is_claimable, lease_expiry, on_claim,
    spec_lease_expiry, NotCurrentHolder, State, Transition,
};
use vstd::prelude::*;

verus! {

broadcast use group_timestamp;

/// One pact and its lifecycle state, as mathematical values.
pub type Entry = (PactView, State);

/// Whether `entry` may be claimed from `dockets` at `now`.
pub open spec fn eligible(entry: Entry, dockets: Seq<Seq<char>>, now: Timestamp) -> bool {
    dockets.contains(entry.0.docket) && claimable(entry.1, now)
}

/// The first index at or after `from` whose entry may be claimed from `dockets` at `now`.
pub open spec fn first_eligible(
    entries: Seq<Entry>,
    dockets: Seq<Seq<char>>,
    now: Timestamp,
    from: int,
) -> Option<int>
    decreases entries.len() - from,
{
    if from < 0 || from >= entries.len() {
        None
    } else if eligible(entries[from], dockets, now) {
        Some(from)
    } else {
        first_eligible(entries, dockets, now, from + 1)
    }
}

/// The first index at or after `from` whose entry is held by `retainer`.
pub open spec fn first_held(entries: Seq<Entry>, retainer: Retainer, from: int) -> Option<int>
    decreases entries.len() - from,
{
    if from < 0 || from >= entries.len() {
        None
    } else if held_by(entries[from].1, retainer) {
        Some(from)
    } else {
        first_held(entries, retainer, from + 1)
    }
}

/// `entries` with the state at `i` replaced.
pub open spec fn with_state(entries: Seq<Entry>, i: int, state: State) -> Seq<Entry> {
    entries.update(i, (entries[i].0, state))
}

/// The entries after `transition` is applied to the pact `retainer` holds (the first one held
/// by it), or `None` when it holds none or the decision rejects it.
pub open spec fn holder_transition(
    entries: Seq<Entry>,
    retainer: Retainer,
    transition: Transition,
) -> Option<Seq<Entry>> {
    match first_held(entries, retainer, 0) {
        None => None,
        Some(i) => match transition.decide(entries[i].1) {
            Ok(state) => Some(with_state(entries, i, state)),
            Err(_) => None,
        },
    }
}

/// What `first_eligible` finds: an eligible index, before which (from `from`) none is.
pub proof fn lemma_first_eligible(
    entries: Seq<Entry>,
    dockets: Seq<Seq<char>>,
    now: Timestamp,
    from: int,
)
    requires
        0 <= from,
    ensures
        match first_eligible(entries, dockets, now, from) {
            Some(i) => {
                &&& from <= i < entries.len()
                &&& eligible(entries[i], dockets, now)
                &&& forall|j: int| from <= j < i ==> !eligible(#[trigger] entries[j], dockets, now)
            },
            None => forall|j: int|
                from <= j < entries.len() ==> !eligible(#[trigger] entries[j], dockets, now),
        },
    decreases entries.len() - from,
{
    if from < entries.len() {
        lemma_first_eligible(entries, dockets, now, from + 1);
    }
}

/// What `first_held` finds: an index held by the retainer, before which (from `from`) none is.
pub proof fn lemma_first_held(entries: Seq<Entry>, retainer: Retainer, from: int)
    requires
        0 <= from,
    ensures
        match first_held(entries, retainer, from) {
            Some(i) => {
                &&& from <= i < entries.len()
                &&& held_by(entries[i].1, retainer)
                &&& forall|j: int| from <= j < i ==> !held_by(#[trigger] entries[j].1, retainer)
            },
            None => forall|j: int|
                from <= j < entries.len() ==> !held_by(#[trigger] entries[j].1, retainer),
        },
    decreases entries.len() - from,
{
    if from < entries.len() {
        lemma_first_held(entries, retainer, from + 1);
    }
}

/// A retainer that holds no pact has no authority: every transition applied on its authority
/// is rejected, whatever the transition, and nothing changes.
pub proof fn law_stranger_is_rejected(entries: Seq<Entry>, retainer: Retainer, transition: Transition)
    requires
        forall|k: int| 0 <= k < entries.len() ==> !held_by(#[trigger] entries[k].1, retainer),
    ensures
        holder_transition(entries, retainer, transition) is None,
{
    lemma_first_held(entries, retainer, 0);
}

struct Record {
    pact: Pact,
    state: State,
}

/// The pacts of an in-memory backend with their states, and its lease duration.
pub struct Ledger {
    records: Vec<Record>,
    lease_millis: u64,
}

impl Ledger {
    /// Each pact with its state, in order.
    pub closed spec fn entries(&self) -> Seq<Entry> {
        self.records@.map_values(|r: Record| (r.pact@, r.state))
    }

    /// The lease duration claims are granted for.
    pub closed spec fn lease(&self) -> u64 {
        self.lease_millis
    }

    /// A ledger holding `pacts`, each available, leasing claims for `lease_millis`.
    pub fn seeded(pacts: Vec<Pact>, lease_millis: u64) -> (l: Ledger)
        ensures
            l.entries().len() == pacts@.len(),
            forall|i: int|
                0 <= i < pacts@.len() ==> #[trigger] l.entries()[i] == (pacts@[i]@, State::Available),
            l.lease() == lease_millis,
    {
        let mut records: Vec<Record> = Vec::new();
        let mut i: usize = 0;
        while i < pacts.len()
            invariant
                i <= pacts.len(),
                records@.len() == i,
                forall|j: int|
                    0 <= j < i ==> (#[trigger] records@[j]).pact@ == pacts@[j]@
                        && records@[j].state == State::Available,
            decreases pacts.len() - i,
        {
            records.push(Record { pact: pacts[i].duplicate(), state: State::Available });
            i = i + 1;
        }
        let l = Ledger { records, lease_millis };
        l
    }

    /// The lease duration claims are granted for.
    pub fn lease_millis(&self) -> (m: u64)
        ensures
            m == self.lease(),
    {
        self.lease_millis
    }

    /// Whether `docket` is one of `dockets`.
    fn requested(docket: &String, dockets: &[&str]) -> (b: bool)
        ensures
            b == docket_names(dockets@).contains(docket@),
    {
        let mut k: usize = 0;
        while k < dockets.len()
            invariant
                k <= dockets@.len(),
                forall|j: int| 0 <= j < k ==> docket_names(dockets@)[j] != docket@,
            decreases dockets@.len() - k,
        {
            if <str as PartialEq>::eq(docket.as_str(), dockets[k]) {
                assert(docket_names(dockets@)[k as int] == docket@);
                return true;
            }
            k = k + 1;
        }
        false
    }

    /// The index of the first pact claimable from `dockets` at `now`.
    fn first_claimable(&self, dockets: &[&str], now: Timestamp) -> (r: Option<usize>)
        ensures
            match r {
                Some(k) => first_eligible(self.entries(), docket_names(dockets@), now, 0) == Some(
                    k as int,
                ) && k < self.entries().len(),
                None => first_eligible(self.entries(), docket_names(dockets@), now, 0) is None,
            },
    {
        let ghost es = self.entries();
        let ghost ds = docket_names(dockets@);
        let mut i: usize = 0;
        while i < self.records.len()
            invariant
                i <= self.records@.len(),
                es == self.entries(),
                ds == docket_names(dockets@),
                first_eligible(es, ds, now, 0) == first_eligible(es, ds, now, i as int),
            decreases self.records@.len() - i,
        {
            if Self::requested(&self.records[i].pact.docket, dockets) && is_claimable(
                &self.records[i].state,
                now,
            ) {
                return Some(i);
            }
            i = i + 1;
        }
        None
    }

    /// The index of the first pact held by `retainer`.
    fn find_holder(&self, retainer: &Retainer) -> (r: Option<usize>)
        ensures
            match r {
                Some(k) => first_held(self.entries(), *retainer, 0) == Some(k as int) && k
                    < self.entries().len(),
                None => first_held(self.entries(), *retainer, 0) is None,
            },
    {
        let ghost es = self.entries();
        let mut i: usize = 0;
        while i < self.records.len()
            invariant
                i <= self.records@.len(),
                es == self.entries(),
                first_held(es, *retainer, 0) == first_held(es, *retainer, i as int),
            decreases self.records@.len() - i,
        {
            let holds = match &self.records[i].state {
                State::Held { retainer: held, .. } => held.same_as(retainer),
                _ => false,
            };
            if holds {
                return Some(i);
            }
            i = i + 1;
        }
        None
    }

    /// Replace the state of the pact at `i`.
    fn set_state(&mut self, i: usize, state: State)
        requires
            i < old(self).entries().len(),
        ensures
            final(self).entries() == with_state(old(self).entries(), i as int, state),
            final(self).lease() == old(self).lease(),
    {
        let mut record = self.records.remove(i);
        record.state = state;
        self.records.insert(i, record);
        assert(self.entries() =~= with_state(old(self).entries(), i as int, state));
    }

    /// Claim the first pact claimable from `dockets` at `now` (in ledger order), holding it
    /// under a freshly minted retainer until `now + lease`.
    pub fn claim(&mut self, dockets: &[&str], now: Timestamp) -> (r: Option<Claim>)
        ensures
            final(self).lease() == old(self).lease(),
            match first_eligible(old(self).entries(), docket_names(dockets@), now, 0) {
                None => r is None && final(self).entries() == old(self).entries(),
                Some(i) => r matches Some(c) && {
                    &&& minted(c.retainer.0)
                    &&& c.pact@ == old(self).entries()[i].0
                    &&& c.lease_expiry == spec_lease_expiry(now, old(self).lease())
                    &&& final(self).entries() == with_state(
                        old(self).entries(),
                        i,
                        State::Held { retainer: c.retainer, expiry: c.lease_expiry },
                    )
                },
            },
    {
        // A lapse: an expired hold is reclaimable through this claim path.
        let found = self.first_claimable(dockets, now);
        match found {
            None => None,
            Some(index) => {
                // Mint a retainer only on a successful claim.
                let id = fresh_uuid();
                proof {
                    lemma_minted(id);
                }
                let retainer = Retainer::new(id);
                let expiry = lease_expiry(now, self.lease_millis);
                let pact = self.records[index].pact.duplicate();
                self.set_state(index, on_claim(&retainer, now, self.lease_millis));
                Some(Claim::new(pact, retainer, expiry))
            },
        }
    }

    /// Apply `transition` to the pact `retainer` holds (the first held by it); the authority
    /// check rests on locating the holder, not on the transition.
    pub fn apply_to_holder(&mut self, retainer: &Retainer, transition: &Transition) -> (r: Result<
        (),
        NotCurrentHolder,
    >)
        ensures
            final(self).lease() == old(self).lease(),
            match holder_transition(old(self).entries(), *retainer, *transition) {
                Some(es) => r is Ok && final(self).entries() == es,
                None => r is Err && final(self).entries() == old(self).entries(),
            },
    {
        match self.find_holder(retainer) {
            None => Err(NotCurrentHolder),
            Some(index) => {
                match transition.apply(&self.records[index].state) {
                    Ok(next) => {
                        self.set_state(index, next);
                        Ok(())
                    },
                    Err(e) => Err(e),
                }
            },
        }
    }
}

} // verus!
