use pbh_builder::error::PbhError;
use pbh_builder::nonce::{AllocatorStep, NonceAllocator, NullifierHashesResult, SlotReport};
use pbh_builder::nullifier::PeriodMarker;

fn run(max: u16, used: &[u16]) -> AllocatorStep {
    let mut a = NonceAllocator::new(max);
    let mut step = a.step;
    while let AllocatorStep::Check(slot) = step {
        let report = if used.contains(&slot) { SlotReport::Used } else { SlotReport::Unused };
        step = a.report(report);
    }
    step
}

#[test]
fn lowest_unused_slot_is_taken() {
    assert_eq!(run(5, &[0, 1, 2]), AllocatorStep::Allocated(3));
}

#[test]
fn all_slots_used_is_no_slot() {
    assert_eq!(run(5, &[0, 1, 2, 3, 4, 5]), AllocatorStep::NoSlotAvailable);
}

#[test]
fn last_slot_can_be_taken() {
    assert_eq!(run(5, &[0, 1, 2, 3, 4]), AllocatorStep::Allocated(5));
    assert_eq!(run(0, &[]), AllocatorStep::Allocated(0));
    assert_eq!(run(0, &[0]), AllocatorStep::NoSlotAvailable);
}

#[test]
fn unused_first_slot_wins() {
    assert_eq!(run(65535, &[]), AllocatorStep::Allocated(0));
    assert_eq!(run(5, &[1, 2]), AllocatorStep::Allocated(0));
}

#[test]
fn failed_lookup_stops_the_scan() {
    let mut a = NonceAllocator::new(5);
    assert_eq!(a.report(SlotReport::Used), AllocatorStep::Check(1));
    assert_eq!(a.report(SlotReport::LookupFailed), AllocatorStep::Inconclusive(1));
    assert_eq!(a.report(SlotReport::Unused), AllocatorStep::Inconclusive(1));
}

#[test]
fn chain_result_maps_to_report() {
    assert_eq!(NullifierHashesResult { _0: true }.report(), SlotReport::Used);
    assert_eq!(NullifierHashesResult { _0: false }.report(), SlotReport::Unused);
}

#[test]
fn finished_scan_names_slot_and_period() {
    let period = PeriodMarker { day: 20000 };
    let mut a = NonceAllocator::new(5);
    assert_eq!(a.finish(period), None);
    a.report(SlotReport::Used);
    a.report(SlotReport::Used);
    assert_eq!(a.report(SlotReport::LookupFailed), AllocatorStep::Inconclusive(2));
    assert_eq!(a.finish(period), Some(Err(PbhError::ChainRead { slot: 2, day: 20000 })));

    let mut b = NonceAllocator::new(1);
    b.report(SlotReport::Used);
    b.report(SlotReport::Used);
    assert_eq!(b.finish(period), Some(Err(PbhError::AllocationExhausted { day: 20000 })));

    let mut c = NonceAllocator::new(5);
    c.report(SlotReport::Used);
    c.report(SlotReport::Unused);
    assert_eq!(c.finish(period), Some(Ok(1)));
}
