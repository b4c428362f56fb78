//! Write-protocol scenarios: handles, epochs, the access guard, and the
//! fatal contract violations.

use munch::errors::SetError;
use munch::fields::MunchFlag;
use munch::fields::MunchLocationBool;
use munch::fields::MunchLocationU64;
use munch::fields::MunchLocationU64Cpu;
use munch::fields::MunchLocationU64Group;
use munch::ring::md_invalid;
use munch::ring::md_is_invalid;
use munch::state::RustMunchState;

fn one_cpu_one_domain() -> Vec<Vec<Vec<usize>>> {
    vec![vec![vec![]]]
}

#[test]
fn open_then_close_seals_the_slot_once() {
    let mut state = RustMunchState::init(2, &one_cpu_one_domain());
    let md = state.open_meal(0);
    assert!(!md_is_invalid(&md));
    assert_eq!(md.cpu_number, 0);
    assert_eq!(md.entry_idx, 0);
    assert_eq!(md.age, 0);
    {
        let bufs = state.bufs.as_ref().unwrap();
        assert!(!bufs[0].info.entries[0].finished);
    }
    assert!(state.can_apply(&md));
    state.close_meal(&md).unwrap();
    {
        let bufs = state.bufs.as_ref().unwrap();
        assert!(bufs[0].info.entries[0].finished);
    }
    // The same handle may not be closed again: the recorder refuses it.
    assert!(!state.can_apply(&md));
}

#[test]
fn slots_are_handed_out_cyclically() {
    let mut state = RustMunchState::init(2, &one_cpu_one_domain());
    let a = state.open_meal(0);
    state.close_meal(&a).unwrap();
    let b = state.open_meal(0);
    state.close_meal(&b).unwrap();
    let c = state.open_meal(0);
    assert_eq!(a.entry_idx, 0);
    assert_eq!(b.entry_idx, 1);
    // The third slot wraps around and re-opens slot zero.
    assert_eq!(c.entry_idx, 0);
    let bufs = state.bufs.as_ref().unwrap();
    assert!(!bufs[0].info.entries[0].finished);
    assert!(bufs[0].info.entries[1].finished);
}

#[test]
fn stale_handle_is_dropped_and_state_matches_a_fresh_reset() {
    let topology = one_cpu_one_domain();
    let mut state = RustMunchState::init(2, &topology);
    let md = state.open_meal(0);
    state
        .munch64(&md, &MunchLocationU64::SdAvgLoad, 55)
        .unwrap();
    state.close_meal(&md).unwrap();
    state.start_dump(0).unwrap();
    state.finalize_dump(0).unwrap();

    // The reset stepped the epoch, so the old handle must be dropped.
    let err = state
        .munch64(&md, &MunchLocationU64::SdAvgLoad, 99)
        .unwrap_err();
    assert_eq!(err, SetError::OldMealDescriptor);
    assert!(!err.is_fatal());

    // And the recorder is exactly what one reset of a fresh recorder gives.
    let mut fresh = RustMunchState::init(2, &topology);
    fresh.start_dump(0).unwrap();
    fresh.finalize_dump(0).unwrap();
    assert_eq!(state, fresh);
}

#[test]
fn locked_buffer_drops_every_write() {
    let mut state = RustMunchState::init(2, &one_cpu_one_domain());
    let md = state.open_meal(0);
    state.start_dump(0).unwrap();
    let before = format!("{:?}", state);
    let err = state
        .munch_bool(&md, &MunchLocationBool::HasBusiest, true)
        .unwrap_err();
    assert_eq!(err, SetError::LockedForReading);
    assert!(!err.is_fatal());
    let err = state.close_meal(&md).unwrap_err();
    assert_eq!(err, SetError::LockedForReading);
    // Opening a slot on a locked buffer yields the sentinel handle and
    // leaves the buffer alone.
    let sentinel = state.open_meal(0);
    assert!(md_is_invalid(&sentinel));
    assert_eq!(format!("{:?}", state), before);
}

#[test]
fn sentinel_handle_routes_nowhere() {
    let mut state = RustMunchState::init(2, &one_cpu_one_domain());
    let md = md_invalid();
    assert!(md_is_invalid(&md));
    let err = state
        .munch64(&md, &MunchLocationU64::Imbalance, 1)
        .unwrap_err();
    assert_eq!(err, SetError::OldMealDescriptor);
    let err = state.close_meal(&md).unwrap_err();
    assert_eq!(err, SetError::OldMealDescriptor);
}

#[test]
fn uninitialized_recorder_hands_out_the_sentinel() {
    let mut state = RustMunchState::uninitialized();
    let md = state.open_meal(0);
    assert!(md_is_invalid(&md));
    let err = state
        .munch64(&md, &MunchLocationU64::Imbalance, 1)
        .unwrap_err();
    assert_eq!(err, SetError::OldMealDescriptor);
}

#[test]
fn unknown_group_identity_is_the_fatal_topology_error() {
    // The topology knows groups 10 and 20 only.
    let topology = vec![vec![vec![10usize, 20]]];
    let mut state = RustMunchState::init(1, &topology);
    let md = state.open_meal(0);
    let err = state
        .munch_u64_group(&md, &MunchLocationU64Group::SumNrRunning, 99, 5)
        .unwrap_err();
    assert_eq!(err, SetError::SchedGroupDoesNotExist(99));
    assert!(err.is_fatal());
}

#[test]
fn cpu_index_out_of_topology_is_fatal() {
    let mut state = RustMunchState::init(1, &one_cpu_one_domain());
    let md = state.open_meal(0);
    let err = state
        .munch_u64_cpu(&md, &MunchLocationU64Cpu::NrRunning, 7, 1)
        .unwrap_err();
    assert_eq!(err, SetError::CpuOutOfBounds(7));
    assert!(err.is_fatal());
}

#[test]
fn advancing_past_the_last_domain_is_fatal() {
    let mut state = RustMunchState::init(1, &one_cpu_one_domain());
    let md = state.open_meal(0);
    state.munch_flag(&md, &MunchFlag::GoToNextSd).unwrap();
    let err = state.munch_flag(&md, &MunchFlag::GoToNextSd).unwrap_err();
    assert_eq!(err, SetError::SdOutOfBounds(1));
    assert!(err.is_fatal());
    // A domain-scoped setter past the last domain fails the same way.
    let err = state
        .munch64(&md, &MunchLocationU64::SdAvgLoad, 3)
        .unwrap_err();
    assert_eq!(err, SetError::SdOutOfBounds(1));
}

#[test]
fn each_reset_strictly_advances_the_epoch() {
    let mut state = RustMunchState::init(2, &one_cpu_one_domain());
    assert_eq!(state.bufs.as_ref().unwrap()[0].info.age, 0);
    state.start_dump(0).unwrap();
    state.finalize_dump(0).unwrap();
    assert_eq!(state.bufs.as_ref().unwrap()[0].info.age, 1);
    // A second reset without an intervening lock still resets and steps.
    state.finalize_dump(0).unwrap();
    assert_eq!(state.bufs.as_ref().unwrap()[0].info.age, 2);
    assert!(!state.bufs.as_ref().unwrap()[0].readonly);
    let md = state.open_meal(0);
    assert_eq!(md.age, 2);
}

#[test]
fn double_lock_keeps_the_buffer_locked() {
    let mut state = RustMunchState::init(2, &one_cpu_one_domain());
    state.start_dump(0).unwrap();
    state.start_dump(0).unwrap();
    assert!(state.bufs.as_ref().unwrap()[0].readonly);
    state.finalize_dump(0).unwrap();
    assert!(!state.bufs.as_ref().unwrap()[0].readonly);
}

#[test]
fn buffers_of_other_processors_are_untouched() {
    let topology = vec![vec![vec![]], vec![vec![]]];
    let mut state = RustMunchState::init(2, &topology);
    let md0 = state.open_meal(0);
    let md1 = state.open_meal(1);
    assert_eq!(md0.cpu_number, 0);
    assert_eq!(md1.cpu_number, 1);
    state.close_meal(&md0).unwrap();
    let bufs = state.bufs.as_ref().unwrap();
    assert!(bufs[0].info.entries[0].finished);
    assert!(!bufs[1].info.entries[0].finished);
}
