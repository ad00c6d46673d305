use core::cell::Cell;
use core::sync::atomic::{AtomicU32, Ordering};
use hvisor_boot::barrier::{
    claim_succeeded, holder_of, holds_back, wait_for, wait_for_counter, BootPhase,
    BootPhaseCounters, CounterSnapshot, MasterElection, MAX_CPUS, UNCLAIMED,
};

fn snapshot(entered: u32, early_ok: u32, inited: u32, late_ok: u32) -> CounterSnapshot {
    CounterSnapshot { entered, early_ok, late_ok, inited }
}

#[test]
fn wait_ends_at_once_when_the_condition_is_false() {
    let polls = Cell::new(0u32);
    let released = wait_for(
        || {
            polls.set(polls.get() + 1);
            false
        },
        5,
    );
    assert!(released);
    assert_eq!(polls.get(), 1);
}

#[test]
fn wait_gives_up_after_its_polls() {
    let polls = Cell::new(0u32);
    let released = wait_for(
        || {
            polls.set(polls.get() + 1);
            true
        },
        5,
    );
    assert!(!released);
    assert_eq!(polls.get(), 5);
}

#[test]
fn wait_without_polls_does_not_look() {
    let polls = Cell::new(0u32);
    let released = wait_for(
        || {
            polls.set(polls.get() + 1);
            false
        },
        0,
    );
    assert!(!released);
    assert_eq!(polls.get(), 0);
}

#[test]
fn wait_ends_when_the_condition_turns_false() {
    let polls = Cell::new(0u32);
    let released = wait_for(
        || {
            polls.set(polls.get() + 1);
            polls.get() < 3
        },
        10,
    );
    assert!(released);
    assert_eq!(polls.get(), 3);
}

#[test]
fn counter_below_its_threshold_holds_back() {
    assert!(holds_back(0, 1));
    assert!(holds_back(1, 2));
    assert!(!holds_back(2, 2));
    assert!(!holds_back(3, 2));
    assert!(!holds_back(0, 0));
}

#[test]
fn wait_for_counter_sees_a_reached_counter() {
    let counter = AtomicU32::new(2);
    assert!(wait_for_counter(&counter, 2, 1));
    assert!(wait_for_counter(&counter, 1, 1));
    assert!(wait_for_counter(&counter, 0, 1));
}

#[test]
fn wait_for_counter_does_not_pass_a_low_counter() {
    let counter = AtomicU32::new(1);
    assert!(!wait_for_counter(&counter, 2, 1));
    assert!(!wait_for_counter(&counter, 2, 1000));
    counter.fetch_add(1, Ordering::SeqCst);
    assert!(wait_for_counter(&counter, 2, 1));
}

#[test]
fn wait_for_counter_without_polls_reports_nothing() {
    let counter = AtomicU32::new(7);
    assert!(!wait_for_counter(&counter, 2, 0));
}

#[test]
fn wait_for_counter_leaves_the_counter_alone() {
    let counter = AtomicU32::new(1);
    wait_for_counter(&counter, 2, 10);
    assert_eq!(counter.load(Ordering::SeqCst), 1);
}

#[test]
fn counters_start_at_zero() {
    let counters = BootPhaseCounters::new();
    assert_eq!(counters.snapshot(), snapshot(0, 0, 0, 0));
}

#[test]
fn first_claim_wins_and_later_claims_lose() {
    let election = MasterElection::new();
    assert_eq!(election.holder(), None);
    assert!(election.try_claim(3));
    assert_eq!(election.holder(), Some(3));
    assert!(!election.try_claim(0));
    assert!(!election.try_claim(3));
    assert!(!election.try_claim(7));
    assert_eq!(election.holder(), Some(3));
}

#[test]
fn core_zero_can_claim() {
    let election = MasterElection::new();
    assert!(election.try_claim(0));
    assert_eq!(election.holder(), Some(0));
    assert!(!election.try_claim(1));
}

#[test]
fn unclaimed_is_no_core() {
    assert_eq!(UNCLAIMED, -1);
    assert_eq!(MAX_CPUS, i32::MAX as usize);
    assert_eq!(MasterElection::new().slot.load(Ordering::SeqCst), UNCLAIMED);
}

#[test]
fn slot_value_names_its_holder() {
    assert_eq!(holder_of(UNCLAIMED), None);
    assert_eq!(holder_of(0), Some(0));
    assert_eq!(holder_of(3), Some(3));
    assert_eq!(holder_of(i32::MAX), Some(i32::MAX));
    assert_eq!(holder_of(-2), Some(-2));
}

#[test]
fn exchange_result_decides_the_claim() {
    assert!(claim_succeeded(Ok(UNCLAIMED)));
    assert!(!claim_succeeded(Err(0)));
    assert!(!claim_succeeded(Err(5)));
}

#[test]
fn phases_follow_the_counters() {
    assert_eq!(snapshot(0, 0, 0, 0).phase(2, false), BootPhase::BootStart);
    assert_eq!(snapshot(1, 0, 0, 0).phase(2, false), BootPhase::CpusEntering);
    assert_eq!(snapshot(2, 0, 0, 0).phase(2, false), BootPhase::EarlyInitPending);
    assert_eq!(snapshot(2, 1, 0, 0).phase(2, false), BootPhase::EarlyInitDone);
    assert_eq!(snapshot(2, 1, 1, 0).phase(2, false), BootPhase::EarlyInitDone);
    assert_eq!(snapshot(2, 1, 2, 0).phase(2, false), BootPhase::LateInitPending);
    assert_eq!(snapshot(2, 1, 2, 1).phase(2, false), BootPhase::LateInitDone);
    assert_eq!(snapshot(2, 1, 2, 1).phase(2, true), BootPhase::Running);
}

#[test]
fn single_core_skips_the_entering_phase() {
    assert_eq!(snapshot(0, 0, 0, 0).phase(1, false), BootPhase::BootStart);
    assert_eq!(snapshot(1, 0, 0, 0).phase(1, false), BootPhase::EarlyInitPending);
}
