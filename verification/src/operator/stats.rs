//! What a lender counts and measures of the transfers that pass through it.
use crate::usb::UrbType;
use crate::utils::metrics;
use crate::utils::metrics::{Duration, Max, Min, RollingAvg};
use vstd::prelude::*;

verus! {

/// How many measurements are kept.
pub const THRESHOLD: usize = 64;

/// What is known of the requests that came in.
pub struct LendRecvStats {
    pub last_few_setup_times: RollingAvg<THRESHOLD, Duration>,
    pub max_setup_times: Max<THRESHOLD, UrbType>,
    pub min_setup_times: Min<THRESHOLD>,
    pub max_active_transfers: u32,
}

impl LendRecvStats {
    pub open spec fn wf(&self) -> bool {
        self.max_setup_times.wf() && self.min_setup_times.wf()
    }

    pub fn new() -> (s: Self)
        ensures
            s.wf(),
            s.last_few_setup_times@ == Seq::<Duration>::empty(),
            s.max_setup_times@ == Map::<u128, UrbType>::empty(),
            s.min_setup_times@ == Set::<u128>::empty(),
            s.max_active_transfers == 0,
    {
        LendRecvStats {
            last_few_setup_times: RollingAvg::preallocated(),
            max_setup_times: Max::new(),
            min_setup_times: Min::new(),
            max_active_transfers: 0,
        }
    }

    /// A transfer begins while `num_active` others are under way.
    pub fn mark_start(&mut self, num_active: u32)
        requires
            num_active < u32::MAX,
        ensures
            final(self).max_active_transfers == (if num_active + 1 > old(
                self,
            ).max_active_transfers {
                num_active + 1
            } else {
                old(self).max_active_transfers as int
            }),
            final(self).last_few_setup_times == old(self).last_few_setup_times,
            final(self).max_setup_times == old(self).max_setup_times,
            final(self).min_setup_times == old(self).min_setup_times,
    {
        if num_active + 1 > self.max_active_transfers {
            self.max_active_transfers = num_active + 1;
        }
    }

    /// A transfer of the kind was set up, which took so long.
    pub fn mark_end(&mut self, elapsed: Duration, kind: UrbType)
        requires
            old(self).wf(),
        ensures
            final(self).wf(),
            final(self).max_active_transfers == old(self).max_active_transfers,
            final(self).last_few_setup_times@ == (if old(self).last_few_setup_times@.len() >= 64 {
                old(self).last_few_setup_times@.drop_first()
            } else {
                old(self).last_few_setup_times@
            }).push(elapsed),
            metrics::max_pushed(
                old(self).max_setup_times@,
                final(self).max_setup_times@,
                64,
                elapsed.nanos,
                kind,
            ),
            metrics::min_pushed(
                old(self).min_setup_times@,
                final(self).min_setup_times@,
                64,
                elapsed.nanos,
            ),
    {
        self.last_few_setup_times.push(elapsed);
        self.max_setup_times.push(elapsed, kind);
        self.min_setup_times.push(elapsed);
    }
}

/// What is known of the answers that went out.
#[derive(Debug, Clone, Copy, PartialEq, Eq, Structural)]
pub struct LendSendStats {
    pub num_transfers_completed: u32,
    pub max_completed_transfers_before_flush: u32,
    pub num_iso_transfers: u64,
}

impl LendSendStats {
    pub fn new() -> (s: Self)
        ensures
            s == (LendSendStats {
                num_transfers_completed: 0,
                max_completed_transfers_before_flush: 0,
                num_iso_transfers: 0,
            }),
    {
        LendSendStats {
            num_transfers_completed: 0,
            max_completed_transfers_before_flush: 0,
            num_iso_transfers: 0,
        }
    }

    /// What was completed is written out.
    pub fn mark_flush(&mut self)
        ensures
            final(self).max_completed_transfers_before_flush == (if old(
                self,
            ).num_transfers_completed > old(self).max_completed_transfers_before_flush {
                old(self).num_transfers_completed
            } else {
                old(self).max_completed_transfers_before_flush
            }),
            final(self).num_transfers_completed == 0,
            final(self).num_iso_transfers == old(self).num_iso_transfers,
    {
        if self.num_transfers_completed > self.max_completed_transfers_before_flush {
            self.max_completed_transfers_before_flush = self.num_transfers_completed;
        }
        self.num_transfers_completed = 0;
    }

    /// A transfer was completed.
    pub fn mark_complete(&mut self)
        requires
            old(self).num_transfers_completed < u32::MAX,
        ensures
            *final(self) == (LendSendStats {
                num_transfers_completed: (old(self).num_transfers_completed + 1) as u32,
                ..*old(self)
            }),
    {
        self.num_transfers_completed = self.num_transfers_completed + 1;
    }

    /// It was an isochronous one.
    pub fn mark_iso(&mut self)
        requires
            old(self).num_iso_transfers < u64::MAX,
        ensures
            *final(self) == (LendSendStats {
                num_iso_transfers: (old(self).num_iso_transfers + 1) as u64,
                ..*old(self)
            }),
    {
        self.num_iso_transfers = self.num_iso_transfers + 1;
    }
}

} // verus!
