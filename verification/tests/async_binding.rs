//! The async binding's scenarios, driven synchronously through the reference backend's
//! transition port (the async surface only awaits these same calls).
use std::cell::RefCell;

use pacta::lifecycle::{cas_round, on_settle, NotCurrentHolder, State, Transition};
use pacta::memory_async::{MemoryRegistryAsync, NotHeld};
use pacta::{Pact, Retainer, Timestamp};
use uuid::Uuid;

fn a_pact() -> Pact {
    Pact::new(Uuid::new_v4(), "d".to_string(), "k".to_string(), Vec::new())
}

fn fulfill(reg: &mut MemoryRegistryAsync, retainer: &Retainer) -> Result<(), NotHeld> {
    reg.apply(retainer, &Transition::Settle { retainer: *retainer })
}

fn heartbeat(reg: &mut MemoryRegistryAsync, retainer: &Retainer, now: Timestamp) -> Result<(), NotHeld> {
    let lease_millis = reg.lease_millis();
    reg.apply(
        retainer,
        &Transition::Heartbeat {
            retainer: *retainer,
            now,
            lease_millis,
        },
    )
}

fn release(reg: &mut MemoryRegistryAsync, retainer: &Retainer, at: Timestamp) -> Result<(), NotHeld> {
    reg.apply(
        retainer,
        &Transition::Release {
            retainer: *retainer,
            reclaimable_at: at,
        },
    )
}

#[test]
fn async_registry_claim_then_fulfill_round_trips_via_defaults() {
    let mut reg = MemoryRegistryAsync::seeded(vec![a_pact()], 1000);
    let claim = reg
        .claim(&["d"], Timestamp::from_millis(0))
        .unwrap()
        .expect("a pact is claimable");
    fulfill(&mut reg, &claim.retainer).expect("fulfill settles");
    assert!(reg
        .claim(&["d"], Timestamp::from_millis(0))
        .unwrap()
        .is_none());
}

#[test]
fn async_registry_heartbeat_refreshes_and_a_stranger_is_rejected() {
    let mut reg = MemoryRegistryAsync::seeded(vec![a_pact()], 1000);
    let claim = reg
        .claim(&["d"], Timestamp::from_millis(0))
        .unwrap()
        .unwrap();
    heartbeat(&mut reg, &claim.retainer, Timestamp::from_millis(500)).expect("live lease refreshes");
    let stranger = Retainer::new(Uuid::new_v4());
    assert_eq!(
        heartbeat(&mut reg, &stranger, Timestamp::from_millis(600)),
        Err(NotHeld)
    );
}

#[test]
fn async_registry_release_then_reclaim_and_the_prior_holder_is_rejected() {
    let mut reg = MemoryRegistryAsync::seeded(vec![a_pact()], 1000);
    let first = reg
        .claim(&["d"], Timestamp::from_millis(0))
        .unwrap()
        .unwrap();
    release(&mut reg, &first.retainer, Timestamp::from_millis(0)).expect("release");
    let second = reg
        .claim(&["d"], Timestamp::from_millis(10))
        .unwrap()
        .expect("reclaimable after release");
    assert_eq!(fulfill(&mut reg, &first.retainer), Err(NotHeld));
    fulfill(&mut reg, &second.retainer).expect("new holder settles");
}

/// The compare-and-set loop, run synchronously over one cell: load, decide, swap if unchanged.
fn apply_via_cas(cell: &RefCell<Option<State>>, transition: &Transition) -> Result<(), NotHeld> {
    loop {
        let loaded = *cell.borrow();
        let (expected, next) = cas_round(loaded, transition).map_err(NotHeld::from)?;
        let mut slot = cell.borrow_mut();
        if *slot == Some(expected) {
            *slot = Some(next);
            return Ok(());
        }
    }
}

#[test]
fn apply_via_cas_applies_once_and_rejects_a_stranger() {
    let holder = Retainer::new(Uuid::new_v4());
    let cell = RefCell::new(Some(State::Held {
        retainer: holder,
        expiry: Timestamp::from_millis(1000),
    }));
    apply_via_cas(&cell, &Transition::Settle { retainer: holder }).expect("holder settles");
    assert_eq!(*cell.borrow(), Some(State::Settled));

    let stranger = Retainer::new(Uuid::new_v4());
    assert_eq!(
        apply_via_cas(&cell, &Transition::Settle { retainer: stranger }),
        Err(NotHeld)
    );
    // The decision the loop runs is the kernel's settle decision.
    assert_eq!(
        on_settle(&State::Settled, &stranger),
        Err(NotCurrentHolder)
    );
}

#[test]
fn apply_rejects_a_stranger_even_with_an_any_state_transition() {
    let mut reg = MemoryRegistryAsync::seeded(vec![a_pact()], 1000);
    let claim = reg
        .claim(&["d"], Timestamp::from_millis(0))
        .unwrap()
        .expect("a pact is claimable");
    let stranger = Retainer::new(Uuid::new_v4());
    // A transition the held state accepts must still be rejected on a stranger's authority:
    // apply locates the pact the stranger holds (none).
    let accepted_by_the_held_state = Transition::Settle {
        retainer: claim.retainer,
    };
    assert_eq!(reg.apply(&stranger, &accepted_by_the_held_state), Err(NotHeld));
    // The held pact was untouched: the true holder still settles it.
    fulfill(&mut reg, &claim.retainer).expect("the held state was untouched");
}
