//! What the cancellation of several orders comes to.

use vstd::prelude::*;
use crate::models::CancelAllResult;
use crate::text::texts;

verus! {

/// Counts the orders that were cancelled, and keeps those that were not.
#[derive(Debug)]
pub struct CancelAllTally {
    cancelled_count: u32,
    failed_count: u32,
    failed_order_ids: Vec<String>,
}

/// What a tally has counted.
#[verifier::ext_equal]
pub struct TallyView {
    /// How many orders were cancelled.
    pub cancelled: nat,
    /// The orders that were not.
    pub failed: Seq<Seq<char>>,
}

impl View for CancelAllTally {
    type V = TallyView;

    closed spec fn view(&self) -> TallyView {
        TallyView {
            cancelled: self.cancelled_count as nat,
            failed: texts(self.failed_order_ids@),
        }
    }
}

impl CancelAllTally {
    /// The orders that were not cancelled are counted.
    pub closed spec fn wf(self) -> bool {
        self.failed_count == self.failed_order_ids@.len()
    }

    /// A tally of no orders.
    pub fn new() -> (t: CancelAllTally)
        ensures
            t.wf(),
            t@ == (TallyView { cancelled: 0, failed: Seq::empty() }),
    {
        let t = CancelAllTally {
            cancelled_count: 0,
            failed_count: 0,
            failed_order_ids: Vec::new(),
        };
        assert(t@.failed =~= Seq::<Seq<char>>::empty());
        t
    }

    /// Counts an order.
    pub fn count(&mut self, order_id: String, cancelled: bool)
        requires
            old(self).wf(),
            old(self)@.cancelled < u32::MAX,
            old(self)@.failed.len() < u32::MAX,
        ensures
            final(self).wf(),
            final(self)@ == (if cancelled {
                TallyView { cancelled: old(self)@.cancelled + 1, failed: old(self)@.failed }
            } else {
                TallyView {
                    cancelled: old(self)@.cancelled,
                    failed: old(self)@.failed.push(order_id@),
                }
            }),
    {
        let ghost before = self@;
        if cancelled {
            self.cancelled_count = self.cancelled_count + 1;
        } else {
            self.failed_count = self.failed_count + 1;
            self.failed_order_ids.push(order_id);
            assert(self@.failed =~= before.failed.push(order_id@));
        }
    }

    /// The result: the orders that were not cancelled are listed where there are any.
    pub fn finish(self) -> (result: CancelAllResult)
        requires
            self.wf(),
        ensures
            result.cancelled_count == self@.cancelled,
            result.failed_count == self@.failed.len(),
            match result.failed_order_ids {
                Some(ids) => texts(ids@) == self@.failed && ids@.len() > 0,
                None => self@.failed.len() == 0,
            },
    {
        let failed_order_ids = if self.failed_order_ids.len() == 0 {
            None
        } else {
            Some(self.failed_order_ids)
        };
        CancelAllResult {
            cancelled_count: self.cancelled_count,
            failed_count: self.failed_count,
            failed_order_ids,
        }
    }
}

} // verus!
