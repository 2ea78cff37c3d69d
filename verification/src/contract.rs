//! The lifecycle vocabulary of Pacta.
use uuid::Uuid;
use vstd::prelude::*;

verus! {

/// The identifier type of the `uuid` crate, carried through opaquely.
#[verifier::external_type_specification]
#[verifier::external_body]
pub struct ExUuid(Uuid);

/// `<Uuid as Clone>::clone`. `Uuid` derives `Clone` and `Copy`, so the clone is the value itself.
pub assume_specification[ <Uuid as Clone>::clone ](u: &Uuid) -> (r: Uuid)
    ensures
        r == *u,
;

/// `<str as PartialEq>::eq`: two string slices are equal when they hold the same characters
/// (std compares their UTF-8 bytes, and UTF-8 encodes each character sequence one way).
pub assume_specification[ <str as PartialEq>::eq ](a: &str, b: &str) -> (r: bool)
    ensures
        r == (a@ == b@),
;

/// Compares two `Uuid`s with `<Uuid as PartialEq>::eq`. `Uuid` derives `PartialEq` over its
/// sixteen bytes, so the result is equality of the two values.
#[verifier::external_body]
pub(crate) fn uuid_eq(a: &Uuid, b: &Uuid) -> (r: bool)
    ensures
        r == (*a == *b),
{
    *a == *b
}

/// Mints a random identifier with `Uuid::new_v4`. Nothing is stated of the value: it comes
/// from the crate's random source.
#[verifier::external_body]
pub(crate) fn fresh_uuid() -> Uuid {
    Uuid::new_v4()
}

/// `id` is an identifier a call of [`fresh_uuid`] returned: a draw from the random source,
/// not a value computed from anything the library holds.
pub closed spec fn minted(id: Uuid) -> bool {
    call_ensures(fresh_uuid, (), id)
}

/// What a call of [`fresh_uuid`] returned is minted.
pub(crate) proof fn lemma_minted(id: Uuid)
    requires
        call_ensures(fresh_uuid, (), id),
    ensures
        minted(id),
{
}

/// An instant in milliseconds, injected by the caller; the contract reads no clock.
#[derive(Debug, Clone, Copy, PartialEq, Eq, PartialOrd, Ord, Hash, Structural)]
pub struct Timestamp {
    millis: u64,
}

impl Timestamp {
    /// The number of milliseconds this instant stands for.
    pub closed spec fn spec_millis(self) -> u64 {
        self.millis
    }

    /// Build an instant from a count of milliseconds.
    pub fn from_millis(millis: u64) -> (t: Timestamp)
        ensures
            t == Timestamp::spec_at(millis),
            t.spec_millis() == millis,
    {
        Timestamp { millis }
    }

    /// The number of milliseconds this instant stands for.
    #[verifier::when_used_as_spec(spec_millis)]
    pub fn as_millis(self) -> (m: u64)
        ensures
            m == self.spec_millis(),
    {
        self.millis
    }

    /// This instant moved `millis` later, saturating at the largest representable instant.
    pub fn plus_millis(self, millis: u64) -> (t: Timestamp)
        ensures
            t.spec_millis() == saturating_sum(self.spec_millis() as int, millis as int),
    {
        Timestamp { millis: self.millis.saturating_add(millis) }
    }

    /// The instant standing for `millis` milliseconds, in specifications.
    pub closed spec fn spec_at(millis: u64) -> Timestamp {
        Timestamp { millis }
    }

    /// `spec_at` builds the instant whose millisecond count is the one given.
    pub broadcast proof fn lemma_spec_at_millis(millis: u64)
        ensures
            #[trigger] Timestamp::spec_at(millis).spec_millis() == millis,
    {
    }

    /// An instant is determined by its millisecond count.
    pub broadcast proof fn lemma_millis_determine(t: Timestamp)
        ensures
            Timestamp::spec_at(#[trigger] t.spec_millis()) == t,
    {
    }
}

/// The facts that tie an instant to its millisecond count.
pub broadcast group group_timestamp {
    Timestamp::lemma_spec_at_millis,
    Timestamp::lemma_millis_determine,
}

/// `a + b`, capped at `u64::MAX`.
pub open spec fn saturating_sum(a: int, b: int) -> int {
    if a + b > u64::MAX { u64::MAX as int } else { a + b }
}


/// An opaque token proving authority to settle a specific claim.
#[derive(Debug, Clone, Copy, PartialEq, Eq, Hash)]
pub struct Retainer(
    /// Opaque retainer identifier.
    pub Uuid,
);

impl Retainer {
    /// Wrap an identifier as a retainer.
    pub fn new(id: Uuid) -> (r: Retainer)
        ensures
            r.0 == id,
    {
        Retainer(id)
    }

    /// The identifier this retainer carries.
    pub fn id(&self) -> (id: Uuid)
        ensures
            id == self.0,
    {
        self.0
    }

    /// Whether two retainers carry the same identifier.
    pub fn same_as(&self, other: &Retainer) -> (b: bool)
        ensures
            b == (*self == *other),
    {
        uuid_eq(&self.0, &other.0)
    }
}

/// A durable unit of obligation, ready to be claimed and executed.
/// Note the deliberate absence of `attempts`, `delay`, and `priority`.
#[derive(Debug, Clone)]
pub struct Pact {
    /// Stable identifier for this pact.
    pub id: Uuid,
    /// Logical docket from which the pact can be claimed.
    pub docket: String,
    /// Application-defined pact kind.
    pub kind: String,
    /// Business data required to fulfill the pact.
    pub clause: Vec<u8>,
}

/// What a pact holds, as mathematical values.
pub struct PactView {
    /// Stable identifier.
    pub id: Uuid,
    /// Docket name.
    pub docket: Seq<char>,
    /// Pact kind.
    pub kind: Seq<char>,
    /// Business data.
    pub clause: Seq<u8>,
}

impl View for Pact {
    type V = PactView;

    open spec fn view(&self) -> PactView {
        PactView { id: self.id, docket: self.docket@, kind: self.kind@, clause: self.clause@ }
    }
}

impl Pact {
    /// Build a pact from its identifier, docket, kind, and clause.
    pub fn new(id: Uuid, docket: String, kind: String, clause: Vec<u8>) -> (p: Pact)
        ensures
            p@ == (PactView { id, docket: docket@, kind: kind@, clause: clause@ }),
    {
        Pact { id, docket, kind, clause }
    }

    /// A copy of this pact holding the same identifier, docket, kind, and clause.
    pub fn duplicate(&self) -> (p: Pact)
        ensures
            p@ == self@,
    {
        let clause = self.clause.clone();
        assert(clause@ =~= self.clause@);
        Pact { id: self.id, docket: self.docket.clone(), kind: self.kind.clone(), clause }
    }
}

/// A claimed pact, the retainer required to settle it, and when its lease lapses.
#[derive(Debug, Clone)]
pub struct Claim {
    /// Pact claimed for execution.
    pub pact: Pact,
    /// Authority required to heartbeat, fulfill, breach, or release the claim.
    pub retainer: Retainer,
    /// The instant after which the hold lapses and the pact may be reclaimed.
    pub lease_expiry: Timestamp,
}

impl Claim {
    /// Build a claim from its pact, retainer, and lease expiry.
    pub fn new(pact: Pact, retainer: Retainer, lease_expiry: Timestamp) -> (c: Claim)
        ensures
            c.pact@ == pact@,
            c.retainer == retainer,
            c.lease_expiry == lease_expiry,
    {
        Claim { pact, retainer, lease_expiry }
    }
}

/// How the execution of a claimed pact concluded.
#[derive(Debug, Clone, Copy, PartialEq, Eq, Hash, Structural)]
pub enum Outcome {
    /// The obligation was met.
    Fulfilled,
    /// The obligation was not met.
    Breached,
}

/// The names of the requested dockets.
pub open spec fn docket_names(dockets: Seq<&str>) -> Seq<Seq<char>> {
    dockets.map_values(|d: &str| d@)
}

/// One call made on a registry: its arguments and what it returned.
pub enum RegistryCall<E> {
    /// `claim(dockets, now)`.
    Claim {
        /// The names of the requested dockets.
        dockets: Seq<Seq<char>>,
        /// The instant handed in.
        now: Timestamp,
        /// What the call returned.
        result: Result<Option<Claim>, E>,
    },
    /// `heartbeat(retainer, now)`.
    Heartbeat {
        /// The retainer handed in.
        retainer: Retainer,
        /// The instant handed in.
        now: Timestamp,
        /// What the call returned.
        result: Result<(), E>,
    },
    /// `fulfill(retainer)`.
    Fulfill {
        /// The retainer handed in.
        retainer: Retainer,
        /// What the call returned.
        result: Result<(), E>,
    },
    /// `breach(retainer)`.
    Breach {
        /// The retainer handed in.
        retainer: Retainer,
        /// What the call returned.
        result: Result<(), E>,
    },
    /// `release(retainer, reclaimable_at)`.
    Release {
        /// The retainer handed in.
        retainer: Retainer,
        /// The instant handed in.
        reclaimable_at: Timestamp,
        /// What the call returned.
        result: Result<(), E>,
    },
}

/// The Registry manages the lifecycle of pacts: claim, heartbeat, fulfill, breach,
/// and release. It is a pure state machine, implemented by a backend; time is
/// injected by the caller.
///
/// Each backend keeps, in specifications, the log of the calls made on it, so that code
/// generic over backends can state which calls it made, with which arguments, and what it
/// did with what they returned. The log promises nothing of the results themselves: those
/// are the backend's.
pub trait Registry: Send + Sync {
    /// Error returned by the registry implementation.
    type Error;

    /// Every call made on this registry, in order.
    spec fn calls(&self) -> Seq<RegistryCall<Self::Error>>;

    /// Claim a pact for execution from one of the requested dockets at `now`.
    fn claim(&mut self, dockets: &[&str], now: Timestamp) -> (r: Result<Option<Claim>, Self::Error>)
        ensures
            final(self).calls() == old(self).calls().push(
                RegistryCall::Claim { dockets: docket_names(dockets@), now, result: r },
            ),
    ;

    /// Extend the lease of the claim held by `retainer`, at `now`.
    fn heartbeat(&mut self, retainer: &Retainer, now: Timestamp) -> (r: Result<(), Self::Error>)
        ensures
            final(self).calls() == old(self).calls().push(
                RegistryCall::Heartbeat { retainer: *retainer, now, result: r },
            ),
    ;

    /// Mark the pact held by `retainer` as successfully fulfilled.
    fn fulfill(&mut self, retainer: &Retainer) -> (r: Result<(), Self::Error>)
        ensures
            final(self).calls() == old(self).calls().push(
                RegistryCall::Fulfill { retainer: *retainer, result: r },
            ),
    ;

    /// Mark the pact held by `retainer` as breached.
    fn breach(&mut self, retainer: &Retainer) -> (r: Result<(), Self::Error>)
        ensures
            final(self).calls() == old(self).calls().push(
                RegistryCall::Breach { retainer: *retainer, result: r },
            ),
    ;

    /// Hand the claim held by `retainer` back, non-terminally: the pact becomes
    /// claimable again at or after `reclaimable_at`.
    fn release(&mut self, retainer: &Retainer, reclaimable_at: Timestamp) -> (r: Result<
        (),
        Self::Error,
    >)
        ensures
            final(self).calls() == old(self).calls().push(
                RegistryCall::Release { retainer: *retainer, reclaimable_at, result: r },
            ),
    ;
}

} // verus!
