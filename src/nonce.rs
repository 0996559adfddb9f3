//! Choosing a nonce slot for the current period: slots are checked in
//! ascending order and the lowest one reported unused is taken.
use vstd::prelude::*;

use crate::error::PbhError;
use crate::nullifier::PeriodMarker;

verus! {

/// What a chain lookup said of one slot's nullifier hash.
#[derive(Clone, Copy, Debug, PartialEq, Eq, Structural)]
pub enum SlotReport {
    Used,
    Unused,
    LookupFailed,
}

/// Where a scan stands: the slot to look up next, or how it ended.
#[derive(Clone, Copy, Debug, PartialEq, Eq, Structural)]
pub enum AllocatorStep {
    /// Look up whether this slot's nullifier hash is spent.
    Check(u16),
    /// This slot is free and taken.
    Allocated(u16),
    /// Every slot from zero to the period's maximum is spent.
    NoSlotAvailable,
    /// The lookup for this slot failed; the scan stops without skipping it.
    Inconclusive(u16),
}

/// The result of the chain's `nullifierHashes` read for one hash.
#[derive(Clone, Copy, Debug, PartialEq, Eq, Structural)]
pub struct NullifierHashesResult {
    pub _0: bool,
}

/// The result of the chain's `numPbhPerMonth` read.
#[derive(Clone, Copy, Debug, PartialEq, Eq, Structural)]
pub struct NumPbhPerMonthResult {
    pub _0: u16,
}

impl NullifierHashesResult {
    /// A spent hash is a used slot.
    pub fn report(&self) -> (r: SlotReport)
        ensures
            r == (if self._0 { SlotReport::Used } else { SlotReport::Unused }),
    {
        if self._0 {
            SlotReport::Used
        } else {
            SlotReport::Unused
        }
    }
}

/// The step after `report` on the slot that `step` asked about; a finished
/// scan stays as it is.
pub open spec fn next_step(max_per_period: u16, step: AllocatorStep, report: SlotReport) -> AllocatorStep {
    match step {
        AllocatorStep::Check(slot) => match report {
            SlotReport::Unused => AllocatorStep::Allocated(slot),
            SlotReport::LookupFailed => AllocatorStep::Inconclusive(slot),
            SlotReport::Used => if slot == max_per_period {
                AllocatorStep::NoSlotAvailable
            } else {
                AllocatorStep::Check((slot + 1) as u16)
            },
        },
        _ => step,
    }
}

/// The step that a whole sequence of reports leads to from the first slot.
pub open spec fn scan(max_per_period: u16, reports: Seq<SlotReport>) -> AllocatorStep
    decreases reports.len(),
{
    if reports.len() == 0 {
        AllocatorStep::Check(0)
    } else {
        next_step(max_per_period, scan(max_per_period, reports.drop_last()), reports.last())
    }
}

/// A scan over the slots `0..=max_per_period` of one period, with the
/// reports it has taken so far.
pub struct NonceAllocator {
    pub max_per_period: u16,
    pub step: AllocatorStep,
    pub reports: Ghost<Seq<SlotReport>>,
}

impl NonceAllocator {
    /// The step is the one that the reports taken so far lead to, and the
    /// scan was still checking before the last of them.
    pub open spec fn wf(&self) -> bool {
        &&& self.step == scan(self.max_per_period, self.reports@)
        &&& self.reports@.len() > 0 ==> scan(self.max_per_period, self.reports@.drop_last()) is Check
    }

    /// A scan that starts by looking up slot zero.
    pub fn new(max_per_period: u16) -> (r: NonceAllocator)
        ensures
            r.wf(),
            r.max_per_period == max_per_period,
            r.reports@ == Seq::<SlotReport>::empty(),
            r.step == AllocatorStep::Check(0),
    {
        NonceAllocator { max_per_period, step: AllocatorStep::Check(0), reports: Ghost(Seq::empty()) }
    }

    /// Takes the lookup result for the slot that the current step asked
    /// about and returns the next step; a finished scan takes no more.
    pub fn report(&mut self, report: SlotReport) -> (r: AllocatorStep)
        requires
            old(self).wf(),
        ensures
            final(self).wf(),
            final(self).max_per_period == old(self).max_per_period,
            final(self).reports@ == (if old(self).step is Check {
                old(self).reports@.push(report)
            } else {
                old(self).reports@
            }),
            final(self).step == next_step(old(self).max_per_period, old(self).step, report),
            r == final(self).step,
    {
        let next = match self.step {
            AllocatorStep::Check(slot) => match report {
                SlotReport::Unused => AllocatorStep::Allocated(slot),
                SlotReport::LookupFailed => AllocatorStep::Inconclusive(slot),
                SlotReport::Used => if slot == self.max_per_period {
                    AllocatorStep::NoSlotAvailable
                } else {
                    proof {
                        lemma_scan_checking(self.max_per_period, self.reports@);
                    }
                    AllocatorStep::Check(slot + 1)
                },
            },
            other => other,
        };
        match self.step {
            AllocatorStep::Check(_) => {
                let ghost before = self.reports@;
                self.reports = Ghost(before.push(report));
                assert(self.reports@.drop_last() =~= before);
            },
            _ => {},
        }
        self.step = next;
        next
    }
}

/// A scan only ever advances over used slots: while it is still checking
/// slot `k` after `k` reports, each of those reports said "used".
proof fn lemma_scan_checking(max_per_period: u16, reports: Seq<SlotReport>)
    requires
        scan(max_per_period, reports) is Check,
    ensures
        scan(max_per_period, reports) == AllocatorStep::Check(reports.len() as u16),
        reports.len() <= max_per_period,
        forall|i: int| 0 <= i < reports.len() ==> reports[i] == SlotReport::Used,
    decreases reports.len(),
{
    if reports.len() > 0 {
        let prefix = reports.drop_last();
        let prev = scan(max_per_period, prefix);
        if !(prev is Check) {
            assert(next_step(max_per_period, prev, reports.last()) == prev);
        }
        lemma_scan_checking(max_per_period, prefix);
        assert forall|i: int| 0 <= i < reports.len() implies reports[i] == SlotReport::Used by {
            if i < prefix.len() {
                assert(reports[i] == prefix[i]);
            }
        }
    }
}

/// What a finished scan of `period` comes to: the allocated slot, or the
/// error that names the period (and the slot whose lookup failed).
pub open spec fn scan_result(step: AllocatorStep, period: PeriodMarker) -> Result<u16, PbhError> {
    match step {
        AllocatorStep::Allocated(s) => Ok(s),
        AllocatorStep::NoSlotAvailable => Err(PbhError::AllocationExhausted { day: period.day }),
        AllocatorStep::Inconclusive(s) => Err(PbhError::ChainRead { slot: s, day: period.day }),
        AllocatorStep::Check(s) => Ok(s),
    }
}

impl NonceAllocator {
    /// The result of a finished scan of `period`; `None` while it still
    /// has a slot to check.
    pub fn finish(&self, period: PeriodMarker) -> (r: Option<Result<u16, PbhError>>)
        ensures
            self.step is Check <==> r is None,
            !(self.step is Check) ==> r == Some(scan_result(self.step, period)),
    {
        match self.step {
            AllocatorStep::Check(_) => None,
            AllocatorStep::Allocated(s) => Some(Ok(s)),
            AllocatorStep::NoSlotAvailable => Some(Err(PbhError::AllocationExhausted { day: period.day })),
            AllocatorStep::Inconclusive(s) => Some(Err(PbhError::ChainRead { slot: s, day: period.day })),
        }
    }
}

/// A scan ends with slot `s` allocated exactly when it was given `s`
/// reports of "used" followed by one of "unused", with `s` within the
/// period's maximum.
proof fn lemma_scan_allocates_lowest_free(max_per_period: u16, reports: Seq<SlotReport>, s: u16)
    requires
        reports.len() > 0,
        scan(max_per_period, reports.drop_last()) is Check,
    ensures
        scan(max_per_period, reports) == AllocatorStep::Allocated(s) <==> (s == reports.len() - 1
            && s <= max_per_period && (forall|i: int| 0 <= i < s ==> reports[i] == SlotReport::Used)
            && reports.last() == SlotReport::Unused),
{
    let prefix = reports.drop_last();
    lemma_scan_checking(max_per_period, prefix);
    assert forall|i: int| 0 <= i < prefix.len() implies reports[i] == prefix[i] by {}
}

/// A scan ends with no slot available exactly when every slot from zero to
/// the period's maximum was reported used.
proof fn lemma_scan_exhausted(max_per_period: u16, reports: Seq<SlotReport>)
    requires
        reports.len() > 0,
        scan(max_per_period, reports.drop_last()) is Check,
    ensures
        scan(max_per_period, reports) == AllocatorStep::NoSlotAvailable <==> (reports.len()
            == max_per_period + 1 && (forall|i: int| 0 <= i < reports.len() ==> reports[i] == SlotReport::Used)),
{
    let prefix = reports.drop_last();
    lemma_scan_checking(max_per_period, prefix);
    assert forall|i: int| 0 <= i < prefix.len() implies reports[i] == prefix[i] by {}
}

/// An allocator takes the lowest free slot: after at least one report it
/// has slot `s` allocated exactly when its reports said "used" for every
/// slot below `s` and "unused" for `s`; it stops inconclusive at `s`
/// exactly when the lookup for `s` failed after every slot below it was
/// used, so no later slot is looked up or taken; and it has no slot
/// available exactly when every slot from zero to the maximum was reported
/// used.
pub proof fn lemma_allocator_outcome(a: NonceAllocator, s: u16)
    requires
        a.wf(),
        a.reports@.len() > 0,
    ensures
        a.step == AllocatorStep::Inconclusive(s) <==> (s == a.reports@.len() - 1 && (forall|i: int|
            0 <= i < s ==> a.reports@[i] == SlotReport::Used) && a.reports@.last() == SlotReport::LookupFailed),
        a.step == AllocatorStep::Allocated(s) <==> (s == a.reports@.len() - 1 && s <= a.max_per_period
            && (forall|i: int| 0 <= i < s ==> a.reports@[i] == SlotReport::Used) && a.reports@.last()
            == SlotReport::Unused),
        a.step == AllocatorStep::NoSlotAvailable <==> (a.reports@.len() == a.max_per_period + 1 && (forall|
            i: int,
        |
            0 <= i < a.reports@.len() ==> a.reports@[i] == SlotReport::Used)),
{
    lemma_scan_allocates_lowest_free(a.max_per_period, a.reports@, s);
    lemma_scan_exhausted(a.max_per_period, a.reports@);
    let prefix = a.reports@.drop_last();
    lemma_scan_checking(a.max_per_period, prefix);
    assert(scan(a.max_per_period, a.reports@) == next_step(
        a.max_per_period,
        scan(a.max_per_period, prefix),
        a.reports@.last(),
    ));
    assert forall|i: int| 0 <= i < prefix.len() implies a.reports@[i] == prefix[i] by {}
    let k = prefix.len();
    assert(scan(a.max_per_period, prefix) == AllocatorStep::Check(k as u16));
    assert(k <= a.max_per_period);
    if a.step == AllocatorStep::Inconclusive(s) {
        assert(a.reports@.last() == SlotReport::LookupFailed);
        assert(s == k);
        assert forall|i: int| 0 <= i < s implies a.reports@[i] == SlotReport::Used by {
            assert(a.reports@[i] == prefix[i]);
        }
    }
    if s == a.reports@.len() - 1 && a.reports@.last() == SlotReport::LookupFailed {
        assert(s == k as u16);
        assert(a.step == AllocatorStep::Inconclusive(s));
    }
}

} // verus!
