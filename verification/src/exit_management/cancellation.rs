//! Cancellation and cleanup of exit orders.

use vstd::prelude::*;
use crate::decimal::Decimal;
use crate::error::{GatewayError, GatewayErrorView};
use crate::text::{join3, same, texts};
use crate::lists::lemma_filter_all;
use crate::time::{Timestamp, utc_now};
use super::handler::{
    ExitHandler, HandlerView, ids_of, lemma_contains_push, lemma_filter_next, order_ids,
};
use super::types::{
    CancelExitResult, CancelExitResultInternal, CancelOutcomeView, CancellationReason,
    CancelledExitInfo, CancelledExitView, ExitEntryStatus, ExitEntryView, SiblingCancellation,
    SiblingView, StatusView, cancelled_views, pending_sibling,
};

verus! {

// ---------------------------------------------------------------------------------------
// Model
// ---------------------------------------------------------------------------------------

impl ExitEntryView {
    /// The entry once it is cancelled.
    pub open spec fn cancelled(self, reason: CancellationReason, now: Timestamp) -> ExitEntryView {
        self.with_status(StatusView::Cancelled { cancelled_at: now, reason }, now)
    }

    /// Whether an entry has no orders at the provider and waits for fills.
    pub open spec fn cancels_at_once(self) -> bool {
        self.status.is_pending() && self.status.orders().len() == 0
    }

    /// What is to be done about an entry that the user cancels.
    pub open spec fn cancel_outcome(self, id: Seq<char>) -> CancelOutcomeView {
        let info = self.cancelled_info(id);
        let actual_orders = self.status.orders();
        if self.cancels_at_once() {
            CancelOutcomeView::CancelledPending(info)
        } else if self.status is PartiallyTriggered {
            CancelOutcomeView::NeedsCancelPartiallyTriggered { actual_orders, info }
        } else if self.status is Placed {
            CancelOutcomeView::NeedsCancelAtProvider { actual_orders, info }
        } else if self.status is Failed && actual_orders.len() > 0 {
            CancelOutcomeView::NeedsCancelFailed { actual_orders, info }
        } else {
            CancelOutcomeView::AlreadyTerminal { status: self.status }
        }
    }

    /// Whether an entry has to be cancelled before the position in a symbol is closed: it
    /// waits, is placed, or has failed with orders left at the provider.
    pub open spec fn reserves(self, symbol: Seq<char>) -> bool {
        self.symbol == symbol && (self.status is Pending || self.status is Placed
            || self.status is PartiallyTriggered || (self.status is Failed
            && self.status.orders().len() > 0))
    }
}

impl HandlerView {
    /// The entries with those of a list cancelled that still wait for fills.
    pub open spec fn with_pending_cancelled(
        self,
        ids: Seq<Seq<char>>,
        reason: CancellationReason,
        now: Timestamp,
    ) -> Map<Seq<char>, ExitEntryView> {
        self.entries.map_entries(
            |id: Seq<char>, e: ExitEntryView|
                if ids.contains(id) && e.status.is_pending() {
                    e.cancelled(reason, now)
                } else {
                    e
                },
        )
    }

    /// What is told of the entries of a list that still wait for fills, each once.
    pub open spec fn pending_infos(self, ids: Seq<Seq<char>>) -> Seq<CancelledExitView>
        decreases ids.len(),
    {
        if ids.len() == 0 {
            Seq::empty()
        } else {
            let told = self.pending_infos(ids.drop_last());
            let id = ids.last();
            if self.entries.contains_key(id) && self.entries[id].status.is_pending()
                && !ids.drop_last().contains(id) {
                told.push(self.entries[id].cancelled_info(id))
            } else {
                told
            }
        }
    }

    /// The handler after the cancellation of a primary order.
    pub open spec fn primary_cancelled(self, primary: Seq<char>, now: Timestamp) -> HandlerView {
        HandlerView {
            entries: self.with_pending_cancelled(
                self.placeholders(primary),
                CancellationReason::PrimaryCancelled,
                now,
            ),
            by_primary: self.by_primary.remove(primary),
            ..self
        }
    }

    /// The handler with an entry cancelled, where there is one.
    pub open spec fn with_cancelled(
        self,
        id: Seq<char>,
        reason: CancellationReason,
        now: Timestamp,
    ) -> HandlerView {
        if self.entries.contains_key(id) {
            self.with_entry(id, self.entries[id].cancelled(reason, now))
        } else {
            self
        }
    }

    /// The placeholder IDs of a primary order that remain once some entries are gone.
    pub open spec fn remaining(self, primary: Seq<char>, gone: Set<Seq<char>>) -> Seq<Seq<char>> {
        self.placeholders(primary).filter(
            |id: Seq<char>|
                !(gone.contains(id) && self.entries.contains_key(id)
                    && self.entries[id].primary_order_id == primary),
        )
    }

    /// Whether an entry is older than the TTL at a time, counted from the handler's making.
    pub open spec fn is_expired(self, id: Seq<char>, now: u128) -> bool {
        now - self.entries[id].made_at > self.config.entry_ttl.nanos
    }

    /// The entries that are older than the TTL at a time.
    pub open spec fn expired_at(self, now: u128) -> Set<Seq<char>> {
        self.entries.dom().filter(|id: Seq<char>| self.is_expired(id, now))
    }

    /// The handler without some entries, which are taken off the list of the primary order
    /// that they name; a primary order that is left without any goes.
    pub open spec fn purged(self, gone: Set<Seq<char>>) -> HandlerView {
        HandlerView {
            entries: self.entries.remove_keys(gone),
            by_primary: Map::new(
                |primary: Seq<char>|
                    self.by_primary.contains_key(primary) && self.remaining(primary, gone).len() > 0,
                |primary: Seq<char>| self.remaining(primary, gone),
            ),
            ..self
        }
    }
}

/// Whether more time than a span has passed at a time since another.
fn is_older(now: u128, since: i128, span: u128) -> (older: bool)
    ensures
        older == (now - since > span),
{
    if since >= 0 {
        let start: u128 = since as u128;
        now > start && now - start > span
    } else if since == i128::MIN {
        let earlier: u128 = 170_141_183_460_469_231_731_687_303_715_884_105_728;
        match now.checked_add(earlier) {
            Some(age) => age > span,
            None => true,
        }
    } else {
        match now.checked_add((-since) as u128) {
            Some(age) => age > span,
            None => true,
        }
    }
}

/// An entry that has to be cancelled before a position is closed.
#[derive(Debug)]
pub struct CloseCancellation {
    /// The placeholder ID of the entry.
    pub placeholder_id: String,
    /// The orders to be cancelled at the provider.
    pub order_ids: Vec<String>,
}

/// What the provider answered to the cancellation of an order.
#[derive(Debug)]
pub struct CancelAnswer {
    /// The order.
    pub order_id: String,
    /// Why it was not cancelled.
    pub error: Option<GatewayError>,
}

/// The orders that were cancelled.
pub open spec fn cancelled_ids(answers: Seq<CancelAnswer>) -> Seq<Seq<char>>
    decreases answers.len(),
{
    if answers.len() == 0 {
        Seq::empty()
    } else {
        let before = cancelled_ids(answers.drop_last());
        match answers.last().error {
            None => before.push(answers.last().order_id@),
            Some(_) => before,
        }
    }
}

/// What is told of the orders that were not cancelled.
pub open spec fn cancel_errors(answers: Seq<CancelAnswer>) -> Seq<Seq<char>>
    decreases answers.len(),
{
    if answers.len() == 0 {
        Seq::empty()
    } else {
        let before = cancel_errors(answers.drop_last());
        match answers.last().error {
            None => before,
            Some(e) => before.push(answers.last().order_id@ + ": "@ + e@.text()),
        }
    }
}

/// What is to be done about the sibling of an exit order that was placed.
#[derive(Debug)]
pub enum SiblingStep {
    /// There is no sibling, or it was modified concurrently.
    Nothing,
    /// The sibling was not placed and is reduced or cancelled.
    Done(SiblingCancellation),
    /// The sibling's orders have to be cancelled at the provider.
    CancelAtProvider { order_ids: Vec<String> },
    /// The quantity that would be left is out of the range of decimals.
    OutOfRange,
}

impl ExitEntryView {
    /// An entry that is not placed, once its sibling was placed for a quantity: its own
    /// quantity is reduced, and it is cancelled where too little would be left.
    pub open spec fn reduced(self, qty: Decimal, min_qty: Decimal, now: Timestamp) -> ExitEntryView {
        let rest = self.quantity.spec_minus(qty).spec_positive_part();
        if rest@ < min_qty@ {
            self.cancelled(CancellationReason::SiblingFilled, now)
        } else {
            ExitEntryView {
                quantity: rest,
                version: self.version.wrapping_add(1),
                updated_at: Some(now),
                ..self
            }
        }
    }
}

// ---------------------------------------------------------------------------------------
// Cancellation by the user and with the primary order
// ---------------------------------------------------------------------------------------

impl ExitHandler {
    /// Sets the status of an entry to cancelled, where there is one.
    fn mark_cancelled(&mut self, id: &str, reason: CancellationReason, now: Timestamp)
        requires
            old(self).wf(),
        ensures
            final(self).wf(),
            final(self)@ == old(self)@.with_cancelled(id@, reason, now),
    {
        proof {
            self.lemma_rows();
        }
        match self.get_entry(id) {
            Some(entry) => {
                let mut entry = entry;
                entry.set_status_at(ExitEntryStatus::Cancelled { cancelled_at: now, reason }, now);
                self.put_entry(entry);
            },
            None => {},
        }
    }

    /// Cancel a pending SL/TP entry by placeholder ID, at a time.
    ///
    /// Returns information about what action the caller needs to take:
    /// - `CancelledPending`: Entry was pending, now cancelled (no further action)
    /// - `NeedsCancelAtProvider`: Entry was placed, caller must cancel at exchange
    /// - `NeedsCancelPartiallyTriggered`: Some orders placed, cancel at exchange
    /// - `NeedsCancelFailed`: Failed entry has live orders that need cancellation
    /// - `AlreadyTerminal`: Entry already in terminal state
    pub fn cancel_entry_at(&mut self, placeholder_id: &str, now: Timestamp) -> (result: Result<
        CancelExitResultInternal,
        GatewayError,
    >)
        requires
            old(self).wf(),
        ensures
            final(self).wf(),
            match result {
                Ok(outcome) => {
                    &&& old(self)@.entries.contains_key(placeholder_id@)
                    &&& outcome@ == old(self)@.entries[placeholder_id@].cancel_outcome(
                        placeholder_id@,
                    )
                    &&& final(self)@ == (if old(self)@.entries[placeholder_id@].cancels_at_once() {
                        old(self)@.with_cancelled(
                            placeholder_id@,
                            CancellationReason::UserRequested,
                            now,
                        )
                    } else {
                        old(self)@
                    })
                },
                Err(e) => !old(self)@.entries.contains_key(placeholder_id@) && e@ == (
                GatewayErrorView::OrderNotFound { id: placeholder_id@ }) && final(self)@ == old(self)@,
            },
    {
        let entry = match self.entry(placeholder_id) {
            Some(entry) => entry,
            None => {
                return Err(GatewayError::OrderNotFound { id: placeholder_id.to_owned() });
            },
        };
        let info = entry.cancelled_info(placeholder_id);
        match &entry.status {
            ExitEntryStatus::Pending => {},
            ExitEntryStatus::PartiallyTriggered { actual_orders, .. } => {
                if actual_orders.len() > 0 {
                    return Ok(
                        CancelExitResultInternal::NeedsCancelPartiallyTriggered {
                            actual_orders: actual_orders.clone(),
                            info,
                        },
                    );
                }
            },
            ExitEntryStatus::Placed { actual_orders } => {
                return Ok(
                    CancelExitResultInternal::NeedsCancelAtProvider {
                        actual_orders: actual_orders.clone(),
                        info,
                    },
                );
            },
            ExitEntryStatus::Failed { actual_orders, .. } => {
                if actual_orders.len() > 0 {
                    return Ok(
                        CancelExitResultInternal::NeedsCancelFailed {
                            actual_orders: actual_orders.clone(),
                            info,
                        },
                    );
                }
                return Ok(
                    CancelExitResultInternal::AlreadyTerminal { status: entry.status.clone() },
                );
            },
            ExitEntryStatus::Cancelled { .. } | ExitEntryStatus::Expired { .. } => {
                return Ok(
                    CancelExitResultInternal::AlreadyTerminal { status: entry.status.clone() },
                );
            },
        }
        self.mark_cancelled(placeholder_id, CancellationReason::UserRequested, now);
        Ok(CancelExitResultInternal::CancelledPending(info))
    }

    /// Cancel a pending SL/TP entry by placeholder ID, at the time that the clock shows.
    pub fn cancel_entry(&mut self, placeholder_id: &str) -> (result: Result<
        CancelExitResultInternal,
        GatewayError,
    >)
        requires
            old(self).wf(),
        ensures
            final(self).wf(),
            match result {
                Ok(outcome) => {
                    &&& old(self)@.entries.contains_key(placeholder_id@)
                    &&& outcome@ == old(self)@.entries[placeholder_id@].cancel_outcome(
                        placeholder_id@,
                    )
                    &&& if old(self)@.entries[placeholder_id@].cancels_at_once() {
                        final(self)@.entries[placeholder_id@].updated_at matches Some(now)
                            && final(self)@ == old(self)@.with_cancelled(
                            placeholder_id@,
                            CancellationReason::UserRequested,
                            now,
                        )
                    } else {
                        final(self)@ == old(self)@
                    }
                },
                Err(e) => !old(self)@.entries.contains_key(placeholder_id@) && e@ == (
                GatewayErrorView::OrderNotFound { id: placeholder_id@ }) && final(self)@ == old(self)@,
            },
    {
        self.cancel_entry_at(placeholder_id, utc_now())
    }

    /// Handle cancellation of a primary order, at a time.
    ///
    /// Cancels all pending SL/TP entries associated with the primary order.
    /// Returns a list of `CancelledExitInfo` for entries that were successfully cancelled.
    pub fn handle_cancellation_at(&mut self, primary_order_id: &str, now: Timestamp) -> (infos: Vec<
        CancelledExitInfo,
    >)
        requires
            old(self).wf(),
        ensures
            final(self).wf(),
            final(self)@ == old(self)@.primary_cancelled(primary_order_id@, now),
            cancelled_views(infos@) == old(self)@.pending_infos(
                old(self)@.placeholders(primary_order_id@),
            ),
    {
        let ghost before = self@;
        let ghost reason = CancellationReason::PrimaryCancelled;
        let placeholder_ids = self.take_placeholders(primary_order_id);
        let ghost ids = texts(placeholder_ids@);
        let ghost index = self@.by_primary;
        let mut infos: Vec<CancelledExitInfo> = Vec::new();
        let mut i: usize = 0;
        proof {
            self.lemma_rows();
            assert(before.entries =~= before.with_pending_cancelled(ids.take(0), reason, now));
            assert(cancelled_views(infos@) =~= Seq::<CancelledExitView>::empty());
        }
        while i < placeholder_ids.len()
            invariant
                i <= placeholder_ids.len(),
                self.wf(),
                ids == texts(placeholder_ids@),
                reason == CancellationReason::PrimaryCancelled,
                self@ == (HandlerView {
                    entries: before.with_pending_cancelled(ids.take(i as int), reason, now),
                    by_primary: index,
                    ..before
                }),
                cancelled_views(infos@) == before.pending_infos(ids.take(i as int)),
            decreases placeholder_ids.len() - i,
        {
            let ghost id = ids[i as int];
            let ghost earlier = ids.take(i as int);
            let ghost step = self@;
            let ghost told = cancelled_views(infos@);
            proof {
                self.lemma_rows();
                assert(id == placeholder_ids@[i as int]@);
                assert(ids.take(i + 1) =~= earlier.push(id));
                assert(ids.take(i + 1).drop_last() =~= earlier);
                lemma_contains_push(earlier, id);
                assert(before.entries.contains_key(id) <==> step.entries.contains_key(id));
            }
            match self.get_entry(placeholder_ids[i].as_str()) {
                Some(entry) => {
                    if entry.is_pending() {
                        assert(!earlier.contains(id));
                        assert(step.entries[id] == before.entries[id]);
                        infos.push(entry.cancelled_info(placeholder_ids[i].as_str()));
                        proof {
                            assert(cancelled_views(infos@) =~= told.push(
                                before.entries[id].cancelled_info(id),
                            ));
                        }
                        self.mark_cancelled(
                            placeholder_ids[i].as_str(),
                            CancellationReason::PrimaryCancelled,
                            now,
                        );
                    }
                },
                None => {},
            }
            proof {
                assert(self@.entries =~= before.with_pending_cancelled(
                    earlier.push(id),
                    reason,
                    now,
                ));
            }
            i = i + 1;
        }
        assert(ids.take(i as int) =~= ids);
        infos
    }

    /// Handle cancellation of a primary order, at the time that the clock shows.
    pub fn handle_cancellation_internal(&mut self, primary_order_id: &str) -> (result: Result<
        Vec<CancelledExitInfo>,
        GatewayError,
    >)
        requires
            old(self).wf(),
        ensures
            final(self).wf(),
            exists|now: Timestamp|
                final(self)@ == #[trigger] old(self)@.primary_cancelled(primary_order_id@, now),
            result matches Ok(infos) && cancelled_views(infos@) == old(self)@.pending_infos(
                old(self)@.placeholders(primary_order_id@),
            ),
    {
        Ok(self.handle_cancellation_at(primary_order_id, utc_now()))
    }

    /// Handle cancellation of a primary order: the placeholder IDs that were cancelled.
    pub fn handle_cancellation(&mut self, primary_order_id: &str) -> (result: Result<
        CancelExitResult,
        GatewayError,
    >)
        requires
            old(self).wf(),
        ensures
            final(self).wf(),
            exists|now: Timestamp|
                final(self)@ == #[trigger] old(self)@.primary_cancelled(primary_order_id@, now),
            result matches Ok(r) && r.failed@.len() == 0
                && texts(r.cancelled@) == old(self)@.pending_infos(old(self)@.placeholders(primary_order_id@)).map_values(
                |v: CancelledExitView| v.placeholder_id,
            ),
    {
        let infos = self.handle_cancellation_at(primary_order_id, utc_now());
        Ok(CancelExitResult { cancelled: placeholder_ids_of(&infos), failed: Vec::new() })
    }

    // -----------------------------------------------------------------------------------
    // Closing a position
    // -----------------------------------------------------------------------------------

    /// The entries to be cancelled before the position in a symbol is closed, with their
    /// orders at the provider.
    ///
    /// This prevents "insufficient balance" errors when SL/TP orders reserve balance.
    pub fn plan_position_close(&self, symbol: &str) -> (plan: Vec<CloseCancellation>)
        requires
            self.wf(),
        ensures
            plan@.map_values(
                |c: CloseCancellation| (c.placeholder_id@, texts(c.order_ids@)),
            ) == self.rows().filter(
                |id: Seq<char>| self@.entries[id].reserves(symbol@),
            ).map_values(
                |id: Seq<char>| (id, order_ids(self@.entries[id].status.orders())),
            ),
    {
        let ghost shown = |c: CloseCancellation| (c.placeholder_id@, texts(c.order_ids@));
        let ghost live = |id: Seq<char>| self@.entries[id].reserves(symbol@);
        let ghost told = |id: Seq<char>| (id, order_ids(self@.entries[id].status.orders()));
        let n: usize = self.row_count();
        let mut plan: Vec<CloseCancellation> = Vec::new();
        let mut i: usize = 0;
        assert(plan@.map_values(shown) =~= self.rows().take(0).filter(live).map_values(told)) by {
            reveal(Seq::filter);
        }
        while i < n
            invariant
                i <= n,
                self.wf(),
                n == self.rows().len(),
                shown == |c: CloseCancellation| (c.placeholder_id@, texts(c.order_ids@)),
                live == |id: Seq<char>| self@.entries[id].reserves(symbol@),
                told == |id: Seq<char>| (id, order_ids(self@.entries[id].status.orders())),
                plan@.map_values(shown) == self.rows().take(i as int).filter(live).map_values(told),
            decreases n - i,
        {
            let ghost before = plan@.map_values(shown);
            let ghost id = self.rows()[i as int];
            proof {
                lemma_filter_next(self.rows(), i as int, live);
            }
            let entry = self.row(i);
            let orders = ExitHandler::get_actual_orders_from_entry(entry);
            let selected = same(entry.symbol.as_str(), symbol) && match &entry.status {
                ExitEntryStatus::Pending
                | ExitEntryStatus::Placed { .. }
                | ExitEntryStatus::PartiallyTriggered { .. } => true,
                ExitEntryStatus::Failed { .. } => orders.len() > 0,
                _ => false,
            };
            if selected {
                let cancellation = CloseCancellation {
                    placeholder_id: entry.placeholder_id.clone(),
                    order_ids: ids_of(&orders),
                };
                plan.push(cancellation);
                proof {
                    assert(live(id));
                    assert(plan@.map_values(shown) =~= before.push(told(id)));
                    assert(self.rows().take(i + 1).filter(live).map_values(told)
                        =~= self.rows().take(i as int).filter(live).map_values(told).push(told(id)));
                }
            }
            i = i + 1;
        }
        assert(self.rows().take(n as int) =~= self.rows());
        plan
    }

    /// Cancels an entry because the position is closed, at a time. Its orders at the provider
    /// have been cancelled, or could not be.
    pub fn close_entry_at(&mut self, placeholder_id: &str, now: Timestamp) -> (info: Option<
        CancelledExitInfo,
    >)
        requires
            old(self).wf(),
        ensures
            final(self).wf(),
            final(self)@ == old(self)@.with_cancelled(
                placeholder_id@,
                CancellationReason::PositionClosed,
                now,
            ),
            match info {
                Some(i) => old(self)@.entries.contains_key(placeholder_id@)
                    && i@ == old(self)@.entries[placeholder_id@].cancelled_info(placeholder_id@),
                None => !old(self)@.entries.contains_key(placeholder_id@),
            },
    {
        let info = match self.entry(placeholder_id) {
            Some(entry) => Some(entry.cancelled_info(placeholder_id)),
            None => None,
        };
        self.mark_cancelled(placeholder_id, CancellationReason::PositionClosed, now);
        info
    }

    /// Cancels an entry because the position is closed, at the time that the clock shows.
    pub fn close_entry(&mut self, placeholder_id: &str) -> (info: Option<CancelledExitInfo>)
        requires
            old(self).wf(),
        ensures
            final(self).wf(),
            match info {
                Some(i) => old(self)@.entries.contains_key(placeholder_id@)
                    && i@ == old(self)@.entries[placeholder_id@].cancelled_info(placeholder_id@)
                    && (final(self)@.entries[placeholder_id@].updated_at matches Some(now)
                    && final(self)@ == old(self)@.with_cancelled(placeholder_id@, CancellationReason::PositionClosed, now)),
                None => !old(self)@.entries.contains_key(placeholder_id@) && final(self)@ == old(self)@,
            },
    {
        self.close_entry_at(placeholder_id, utc_now())
    }

    // -----------------------------------------------------------------------------------
    // Cleanup
    // -----------------------------------------------------------------------------------

    /// Removes entries from both indexes.
    fn purge(&mut self, ids: &Vec<String>)
        requires
            old(self).wf(),
            forall|i: int|
                0 <= i < ids@.len() ==> old(self)@.entries.contains_key(#[trigger] texts(ids@)[i]),
            texts(ids@).no_duplicates(),
        ensures
            final(self).wf(),
            final(self)@ == old(self)@.purged(texts(ids@).to_set()),
    {
        let ghost before = self@;
        let ghost all = texts(ids@);
        let mut i: usize = 0;
        proof {
            self.lemma_rows();
            lemma_purge_nothing(before, all.take(0).to_set());
        }
        while i < ids.len()
            invariant
                i <= ids.len(),
                self.wf(),
                before.sound(),
                all == texts(ids@),
                all.no_duplicates(),
                forall|j: int|
                    0 <= j < all.len() ==> before.entries.contains_key(#[trigger] all[j]),
                self@ == before.purged(all.take(i as int).to_set()),
            decreases ids.len() - i,
        {
            let ghost id = all[i as int];
            let ghost earlier = all.take(i as int);
            let ghost step = self@;
            proof {
                assert(id == ids@[i as int]@);
                assert(!earlier.contains(id));
                assert(step.entries.contains_key(id));
            }
            match self.take_entry(ids[i].as_str()) {
                Some(entry) => {
                    let mut single: Vec<String> = Vec::new();
                    single.push(ids[i].clone());
                    let ghost taken = self@;
                    self.remove_batch_from_secondary_index(entry.primary_order_id.as_str(), &single);
                    proof {
                        assert(texts(single@) =~= Seq::<Seq<char>>::empty().push(id));
                        lemma_contains_push(Seq::<Seq<char>>::empty(), id);
                        assert(texts(single@).to_set() =~= set![id]);
                        assert(all.take(i + 1) =~= earlier.push(id));
                        lemma_contains_push(earlier, id);
                        assert(all.take(i + 1).to_set() =~= earlier.to_set().insert(id));
                        lemma_purge_one(before, earlier.to_set(), id);
                    }
                },
                None => {},
            }
            i = i + 1;
        }
        assert(all.take(i as int) =~= all);
    }

    /// Remove all entries in `Failed` status from both indexes.
    ///
    /// Called after re-broadcasting `PositionUnprotected` on reconnect so that
    /// stale failed entries do not accumulate indefinitely.
    pub fn clear_failed_entries_internal(&mut self) -> (cleared: usize)
        requires
            old(self).wf(),
        ensures
            final(self).wf(),
            final(self)@ == old(self)@.purged(
                old(self)@.entries.dom().filter(
                    |id: Seq<char>| old(self)@.entries[id].status is Failed,
                ),
            ),
            cleared == old(self)@.entries.dom().filter(
                |id: Seq<char>| old(self)@.entries[id].status is Failed,
            ).len(),
    {
        let ghost before = self@;
        let ghost failed = |id: Seq<char>| before.entries[id].status is Failed;
        let n: usize = self.row_count();
        let mut ids: Vec<String> = Vec::new();
        let mut i: usize = 0;
        while i < n
            invariant
                i <= n,
                self.wf(),
                self@ == before,
                n == self.rows().len(),
                failed == |id: Seq<char>| before.entries[id].status is Failed,
                texts(ids@).no_duplicates(),
                forall|id: Seq<char>| #[trigger]
                    texts(ids@).contains(id) <==> self.rows().take(i as int).contains(id) && failed(
                        id,
                    ),
            decreases n - i,
        {
            let ghost earlier = texts(ids@);
            let ghost id = self.rows()[i as int];
            proof {
                self.lemma_rows();
                assert(self.rows().take(i + 1) =~= self.rows().take(i as int).push(id));
                lemma_contains_push(self.rows().take(i as int), id);
                assert(!self.rows().take(i as int).contains(id));
            }
            let entry = self.row(i);
            let is_failed = match &entry.status {
                ExitEntryStatus::Failed { .. } => true,
                _ => false,
            };
            if is_failed {
                ids.push(entry.placeholder_id.clone());
                proof {
                    assert(texts(ids@) =~= earlier.push(id));
                    assert(!earlier.contains(id));
                    lemma_contains_push(earlier, id);
                }
            }
            i = i + 1;
        }
        proof {
            self.lemma_rows();
            assert(self.rows().take(n as int) =~= self.rows());
            let gone = before.entries.dom().filter(
                |id: Seq<char>| before.entries[id].status is Failed,
            );
            assert forall|id: Seq<char>| texts(ids@).to_set().contains(id) == gone.contains(id) by {
                assert(texts(ids@).contains(id) <==> self.rows().contains(id) && failed(id));
                assert(before.entries.contains_key(id) <==> self.rows().contains(id));
            }
            assert(texts(ids@).to_set() =~= gone);
            texts(ids@).unique_seq_to_set();
            assert forall|j: int| 0 <= j < ids@.len() implies before.entries.contains_key(
                #[trigger] texts(ids@)[j],
            ) by {
                assert(texts(ids@).contains(texts(ids@)[j]));
            }
        }
        self.purge(&ids);
        ids.len()
    }

    /// Clean up entries that have exceeded the TTL, at a time counted from the handler's making.
    pub fn cleanup_expired_entries_at(&mut self, now: u128) -> (cleaned: usize)
        requires
            old(self).wf(),
        ensures
            final(self).wf(),
            final(self)@ == old(self)@.purged(old(self)@.expired_at(now)),
            cleaned == old(self)@.expired_at(now).len(),
    {
        let ghost before = self@;
        let ghost old_enough = |id: Seq<char>| before.is_expired(id, now);
        let ttl: u128 = self.config().entry_ttl.nanos;
        let n: usize = self.row_count();
        let mut ids: Vec<String> = Vec::new();
        let mut i: usize = 0;
        while i < n
            invariant
                i <= n,
                self.wf(),
                self@ == before,
                n == self.rows().len(),
                ttl == before.config.entry_ttl.nanos,
                old_enough == |id: Seq<char>| before.is_expired(id, now),
                texts(ids@).no_duplicates(),
                forall|id: Seq<char>| #[trigger]
                    texts(ids@).contains(id) <==> self.rows().take(i as int).contains(id)
                        && old_enough(id),
            decreases n - i,
        {
            let ghost earlier = texts(ids@);
            let ghost id = self.rows()[i as int];
            proof {
                self.lemma_rows();
                assert(self.rows().take(i + 1) =~= self.rows().take(i as int).push(id));
                lemma_contains_push(self.rows().take(i as int), id);
                assert(!self.rows().take(i as int).contains(id));
            }
            let entry = self.row(i);
            if is_older(now, entry.made_at, ttl) {
                ids.push(entry.placeholder_id.clone());
                proof {
                    assert(texts(ids@) =~= earlier.push(id));
                    assert(!earlier.contains(id));
                    lemma_contains_push(earlier, id);
                }
            }
            i = i + 1;
        }
        proof {
            self.lemma_rows();
            assert(self.rows().take(n as int) =~= self.rows());
            let gone = before.expired_at(now);
            assert forall|id: Seq<char>| texts(ids@).to_set().contains(id) == gone.contains(id) by {
                assert(texts(ids@).contains(id) <==> self.rows().contains(id) && old_enough(id));
                assert(before.entries.contains_key(id) <==> self.rows().contains(id));
            }
            assert(texts(ids@).to_set() =~= gone);
            texts(ids@).unique_seq_to_set();
            assert forall|j: int| 0 <= j < ids@.len() implies before.entries.contains_key(
                #[trigger] texts(ids@)[j],
            ) by {
                assert(texts(ids@).contains(texts(ids@)[j]));
            }
        }
        self.purge(&ids);
        ids.len()
    }

    /// Clean up entries that have exceeded the TTL, at the time that the clock shows.
    pub fn cleanup_expired_entries(&mut self) -> (cleaned: usize)
        requires
            old(self).wf(),
        ensures
            final(self).wf(),
            exists|now: u128|
                final(self)@ == old(self)@.purged(#[trigger] old(self)@.expired_at(now)) && cleaned
                    == old(self)@.expired_at(now).len(),
    {
        let now: u128 = self.clock();
        let cleaned: usize = self.cleanup_expired_entries_at(now);
        assert(self@ == old(self)@.purged(old(self)@.expired_at(now)));
        cleaned
    }

    // -----------------------------------------------------------------------------------
    // Siblings
    // -----------------------------------------------------------------------------------

    /// Reduces a sibling that is not placed, at a time, unless its version has changed.
    ///
    /// The version is that of the entry when the caller decided to reduce it: a sibling that
    /// was modified since is left alone.
    pub fn reduce_sibling_at(
        &mut self,
        sibling_id: &str,
        expected_version: u64,
        qty_to_cancel: Decimal,
        now: Timestamp,
    ) -> (step: SiblingStep)
        requires
            old(self).wf(),
        ensures
            final(self).wf(),
            !old(self)@.entries.contains_key(sibling_id@) ==> step is Done && step->Done_0@
                == pending_sibling(sibling_id@, qty_to_cancel) && final(self)@ == old(self)@,
            old(self)@.entries.contains_key(sibling_id@) ==> {
                let entry = old(self)@.entries[sibling_id@];
                if entry.version != expected_version {
                    step is Nothing && final(self)@ == old(self)@
                } else if !entry.quantity.subtracts(qty_to_cancel) {
                    step is OutOfRange && final(self)@ == old(self)@
                } else {
                    step is Done && step->Done_0@ == pending_sibling(sibling_id@, qty_to_cancel)
                        && final(self)@ == old(self)@.with_entry(
                        sibling_id@,
                        entry.reduced(qty_to_cancel, old(self)@.config.min_exit_order_qty, now),
                    )
                }
            },
    {
        proof {
            self.lemma_rows();
        }
        match self.get_entry(sibling_id) {
            Some(entry) => {
                if entry.version() != expected_version {
                    return SiblingStep::Nothing;
                }
                let rest = match entry.quantity.checked_minus(&qty_to_cancel) {
                    Some(rest) => rest.positive_part(),
                    None => {
                        return SiblingStep::OutOfRange;
                    },
                };
                let mut entry = entry;
                if rest.less_than(&self.config().min_exit_order_qty) {
                    entry.set_status_at(
                        ExitEntryStatus::Cancelled {
                            cancelled_at: now,
                            reason: CancellationReason::SiblingFilled,
                        },
                        now,
                    );
                } else {
                    entry.quantity = rest;
                    entry.increment_version_at(now);
                }
                self.put_entry(entry);
            },
            None => {},
        }
        SiblingStep::Done(SiblingCancellation::pending(sibling_id, qty_to_cancel))
    }

    /// Cancel sibling order proportionally (OCO behavior), at a time.
    ///
    /// When one leg is placed, the sibling should be reduced by the same amount. A sibling
    /// that is not placed is reduced here; the orders of one that is have to be cancelled at
    /// the provider first.
    pub fn cancel_sibling_at(&mut self, sibling_id: &str, qty_to_cancel: Decimal, now: Timestamp)
        -> (step: SiblingStep)
        requires
            old(self).wf(),
        ensures
            final(self).wf(),
            !old(self)@.entries.contains_key(sibling_id@) ==> step is Nothing && final(self)@
                == old(self)@,
            old(self)@.entries.contains_key(sibling_id@) ==> {
                let entry = old(self)@.entries[sibling_id@];
                if entry.status.orders().len() > 0 {
                    step is CancelAtProvider && texts(step->order_ids@) == order_ids(
                        entry.status.orders(),
                    ) && final(self)@ == old(self)@
                } else if !entry.quantity.subtracts(qty_to_cancel) {
                    step is OutOfRange && final(self)@ == old(self)@
                } else {
                    step is Done && step->Done_0@ == pending_sibling(sibling_id@, qty_to_cancel)
                        && final(self)@ == old(self)@.with_entry(
                        sibling_id@,
                        entry.reduced(qty_to_cancel, old(self)@.config.min_exit_order_qty, now),
                    )
                }
            },
    {
        let (orders, expected_version) = match self.entry(sibling_id) {
            Some(entry) => (ExitHandler::get_actual_orders_from_entry(entry), entry.version()),
            None => {
                return SiblingStep::Nothing;
            },
        };
        if orders.len() > 0 {
            return SiblingStep::CancelAtProvider { order_ids: ids_of(&orders) };
        }
        self.reduce_sibling_at(sibling_id, expected_version, qty_to_cancel, now)
    }

    /// Cancels a sibling whose orders the provider was asked to cancel, at a time.
    pub fn finish_sibling_cancellation_at(
        &mut self,
        sibling_id: &str,
        qty_to_cancel: Decimal,
        answers: &Vec<CancelAnswer>,
        now: Timestamp,
    ) -> (cancellation: SiblingCancellation)
        requires
            old(self).wf(),
        ensures
            final(self).wf(),
            final(self)@ == old(self)@.with_cancelled(
                sibling_id@,
                CancellationReason::SiblingFilled,
                now,
            ),
            cancellation@ == (SiblingView {
                sibling_placeholder_id: sibling_id@,
                actual_order_ids: cancelled_ids(answers@),
                qty_cancelled: qty_to_cancel,
                was_placed: true,
                cancel_success: cancel_errors(answers@).len() == 0,
                errors: cancel_errors(answers@),
            }),
    {
        let mut cancelled_order_ids: Vec<String> = Vec::new();
        let mut errors: Vec<String> = Vec::new();
        let mut i: usize = 0;
        proof {
            assert(texts(cancelled_order_ids@) =~= Seq::<Seq<char>>::empty());
            assert(texts(errors@) =~= Seq::<Seq<char>>::empty());
        }
        while i < answers.len()
            invariant
                i <= answers.len(),
                texts(cancelled_order_ids@) == cancelled_ids(answers@.take(i as int)),
                texts(errors@) == cancel_errors(answers@.take(i as int)),
            decreases answers.len() - i,
        {
            let ghost ids = texts(cancelled_order_ids@);
            let ghost told = texts(errors@);
            proof {
                let longer = answers@.take(i + 1);
                assert(longer.drop_last() =~= answers@.take(i as int));
                assert(longer.last() == answers@[i as int]);
            }
            match &answers[i].error {
                None => {
                    cancelled_order_ids.push(answers[i].order_id.clone());
                    assert(texts(cancelled_order_ids@) =~= ids.push(
                        answers@[i as int].order_id@,
                    ));
                },
                Some(e) => {
                    let text = join3(
                        answers[i].order_id.as_str(),
                        ": ",
                        e.to_text().as_str(),
                    );
                    errors.push(text);
                    assert(texts(errors@) =~= told.push(text@));
                },
            }
            i = i + 1;
        }
        assert(answers@.take(i as int) =~= answers@);
        self.mark_cancelled(sibling_id, CancellationReason::SiblingFilled, now);
        SiblingCancellation::placed_multiple(sibling_id, cancelled_order_ids, qty_to_cancel, errors)
    }
}

/// The placeholder IDs of cancelled entries.
fn placeholder_ids_of(infos: &Vec<CancelledExitInfo>) -> (ids: Vec<String>)
    ensures
        texts(ids@) == cancelled_views(infos@).map_values(
            |v: CancelledExitView| v.placeholder_id,
        ),
{
    let ghost all = cancelled_views(infos@).map_values(|v: CancelledExitView| v.placeholder_id);
    let mut ids: Vec<String> = Vec::new();
    let mut i: usize = 0;
    while i < infos.len()
        invariant
            i <= infos.len(),
            all == cancelled_views(infos@).map_values(|v: CancelledExitView| v.placeholder_id),
            texts(ids@) == all.take(i as int),
        decreases infos.len() - i,
    {
        let ghost before = texts(ids@);
        ids.push(infos[i].placeholder_id.clone());
        proof {
            assert(texts(ids@) =~= before.push(infos@[i as int].placeholder_id@));
            assert(texts(ids@) =~= all.take(i + 1));
        }
        i = i + 1;
    }
    assert(all.take(i as int) =~= all);
    ids
}

// ---------------------------------------------------------------------------------------
// Lemmas
// ---------------------------------------------------------------------------------------

/// Filtering twice keeps what passes both tests.
proof fn lemma_filter_twice<T>(
    s: Seq<T>,
    f: spec_fn(T) -> bool,
    g: spec_fn(T) -> bool,
    both: spec_fn(T) -> bool,
)
    requires
        forall|x: T| s.contains(x) ==> (#[trigger] both(x) <==> f(x) && g(x)),
    ensures
        s.filter(f).filter(g) == s.filter(both),
    decreases s.len(),
{
    reveal(Seq::filter);
    if s.len() > 0 {
        let rest = s.drop_last();
        assert forall|x: T| rest.contains(x) implies (#[trigger] both(x) <==> f(x) && g(x)) by {
            let i = choose|i: int| 0 <= i < rest.len() && rest[i] == x;
            assert(s[i] == x);
        }
        lemma_filter_twice(rest, f, g, both);
        assert(s.contains(s.last())) by {
            assert(s[s.len() - 1] == s.last());
        }
        if f(s.last()) {
            let kept = rest.filter(f);
            assert(s.filter(f) =~= kept.push(s.last()));
            assert(kept.push(s.last()).drop_last() =~= kept);
        }
    }
}

/// Tests that agree on the elements of a sequence keep the same of it.
proof fn lemma_filter_same<T>(s: Seq<T>, f: spec_fn(T) -> bool, g: spec_fn(T) -> bool)
    requires
        forall|x: T| s.contains(x) ==> (#[trigger] f(x) <==> g(x)),
    ensures
        s.filter(f) == s.filter(g),
    decreases s.len(),
{
    reveal(Seq::filter);
    if s.len() > 0 {
        let rest = s.drop_last();
        assert forall|x: T| rest.contains(x) implies (#[trigger] f(x) <==> g(x)) by {
            let i = choose|i: int| 0 <= i < rest.len() && rest[i] == x;
            assert(s[i] == x);
        }
        lemma_filter_same(rest, f, g);
        assert(s.contains(s.last())) by {
            assert(s[s.len() - 1] == s.last());
        }
    }
}

proof fn lemma_purge_nothing(h: HandlerView, gone: Set<Seq<char>>)
    requires
        h.sound(),
        forall|id: Seq<char>| !gone.contains(id),
    ensures
        h.purged(gone) == h,
{
    let p = h.purged(gone);
    assert(p.entries =~= h.entries);
    assert forall|primary: Seq<char>| h.by_primary.contains_key(primary) implies h.remaining(
        primary,
        gone,
    ) == h.by_primary[primary] by {
        lemma_filter_all(
            h.by_primary[primary],
            |id: Seq<char>|
                !(gone.contains(id) && h.entries.contains_key(id)
                    && h.entries[id].primary_order_id == primary),
        );
    }
    assert(p.by_primary =~= h.by_primary);
}

/// Removing one entry more is to take it out and off the list of its primary order.
proof fn lemma_purge_one(h: HandlerView, gone: Set<Seq<char>>, id: Seq<char>)
    requires
        h.sound(),
        h.entries.contains_key(id),
        !gone.contains(id),
    ensures
        h.purged(gone.insert(id)) == (HandlerView {
            entries: h.purged(gone).entries.remove(id),
            ..h.purged(gone)
        }).unlisted(h.entries[id].primary_order_id, set![id]),
{
    let primary = h.entries[id].primary_order_id;
    let part = h.purged(gone);
    let taken = HandlerView { entries: part.entries.remove(id), ..part };
    let more = gone.insert(id);
    let whole = h.purged(more);
    let result = taken.unlisted(primary, set![id]);
    assert(whole.entries =~= taken.entries);
    assert forall|other: Seq<char>| h.by_primary.contains_key(other) implies h.remaining(other, more)
        == (if other == primary {
        h.remaining(other, gone).filter(|x: Seq<char>| !set![id].contains(x))
    } else {
        h.remaining(other, gone)
    }) by {
        let listed = h.placeholders(other);
        let f = |x: Seq<char>|
            !(gone.contains(x) && h.entries.contains_key(x) && h.entries[x].primary_order_id
                == other);
        let g = |x: Seq<char>| !set![id].contains(x);
        let both = |x: Seq<char>|
            !(more.contains(x) && h.entries.contains_key(x) && h.entries[x].primary_order_id
                == other);
        if other == primary {
            lemma_filter_twice(listed, f, g, both);
        } else {
            lemma_filter_same(listed, both, f);
        }
    }
    assert forall|other: Seq<char>|
        whole.by_primary.contains_key(other) == result.by_primary.contains_key(other) by {
        if h.by_primary.contains_key(other) && other == primary && h.remaining(other, gone).len() == 0 {
            reveal(Seq::filter);
        }
    }
    assert(whole.by_primary =~= result.by_primary);
}

// ---------------------------------------------------------------------------------------
// Laws
// ---------------------------------------------------------------------------------------

/// The handler once several entries are cancelled because the position is closed.
pub open spec fn all_closed(h: HandlerView, ids: Seq<Seq<char>>, now: Timestamp) -> HandlerView
    decreases ids.len(),
{
    if ids.len() == 0 {
        h
    } else {
        all_closed(h, ids.drop_last(), now).with_cancelled(
            ids.last(),
            CancellationReason::PositionClosed,
            now,
        )
    }
}

proof fn lemma_all_closed(h: HandlerView, ids: Seq<Seq<char>>, now: Timestamp)
    ensures
        all_closed(h, ids, now).entries.dom() == h.entries.dom(),
        forall|id: Seq<char>|
            #![trigger all_closed(h, ids, now).entries[id]]
            h.entries.contains_key(id) ==> if ids.contains(id) {
                all_closed(h, ids, now).entries[id].status is Cancelled
            } else {
                all_closed(h, ids, now).entries[id] == h.entries[id]
            },
    decreases ids.len(),
{
    if ids.len() > 0 {
        let rest = ids.drop_last();
        lemma_all_closed(h, rest, now);
        assert(rest.push(ids.last()) =~= ids);
        lemma_contains_push(rest, ids.last());
        assert(all_closed(h, ids, now).entries.dom() =~= h.entries.dom());
        assert forall|id: Seq<char>|
            #![trigger all_closed(h, ids, now).entries[id]]
            h.entries.contains_key(id) implies if ids.contains(id) {
            all_closed(h, ids, now).entries[id].status is Cancelled
        } else {
            all_closed(h, ids, now).entries[id] == h.entries[id]
        } by {
            let before = all_closed(h, rest, now);
            assert(before.entries.contains_key(id));
            assert(before.entries[id] == before.entries[id]);
        }
    }
}

/// Once every entry that reserves balance in a symbol is cancelled for the close of the
/// position, none reserves any more, and the entries of other symbols are as they were.
pub proof fn law_close_releases_symbol(
    h: HandlerView,
    ids: Seq<Seq<char>>,
    symbol: Seq<char>,
    now: Timestamp,
)
    requires
        forall|id: Seq<char>|
            #![trigger ids.contains(id)]
            ids.contains(id) <==> h.entries.contains_key(id) && h.entries[id].reserves(symbol),
    ensures
        forall|id: Seq<char>|
            #![trigger all_closed(h, ids, now).entries[id]]
            h.entries.contains_key(id) ==> !all_closed(h, ids, now).entries[id].reserves(symbol),
        forall|id: Seq<char>|
            #![trigger all_closed(h, ids, now).entries[id]]
            h.entries.contains_key(id) && h.entries[id].symbol != symbol ==> all_closed(
                h,
                ids,
                now,
            ).entries[id] == h.entries[id],
{
    lemma_all_closed(h, ids, now);
}

/// After the cancellation of a primary order none of the entries that were listed under it
/// waits for fills, and nothing is listed under it any more; entries that were placed stay
/// as they were.
pub proof fn law_cancellation_leaves_nothing_pending(
    h: HandlerView,
    primary: Seq<char>,
    now: Timestamp,
    id: Seq<char>,
)
    requires
        h.placeholders(primary).contains(id),
        h.entries.contains_key(id),
    ensures
        !h.primary_cancelled(primary, now).entries[id].status.is_pending(),
        !h.entries[id].status.is_pending() ==> h.primary_cancelled(primary, now).entries[id]
            == h.entries[id],
        h.primary_cancelled(primary, now).placeholders(primary).len() == 0,
{
}

/// Cancelling a primary order a second time tells of nothing and changes nothing.
pub proof fn law_cancellation_once(h: HandlerView, primary: Seq<char>, now: Timestamp, again: Timestamp)
    ensures
        ({
            let once = h.primary_cancelled(primary, now);
            &&& once.pending_infos(once.placeholders(primary)).len() == 0
            &&& once.primary_cancelled(primary, again) == once
        }),
{
    let once = h.primary_cancelled(primary, now);
    assert(once.placeholders(primary) =~= Seq::<Seq<char>>::empty());
    let twice = once.primary_cancelled(primary, again);
    assert(twice.entries =~= once.entries);
    assert(twice.by_primary =~= once.by_primary);
}

/// A cleanup leaves no entry that is older than the TTL and takes none that is not, whatever
/// its status; an entry does not expire at the moment that it is made, and once it has expired
/// it stays so.
pub proof fn law_cleanup_takes_what_expired(h: HandlerView, id: Seq<char>, now: u128, later: u128)
    requires
        h.entries.contains_key(id),
    ensures
        h.purged(h.expired_at(now)).expired_at(now) =~= Set::<Seq<char>>::empty(),
        h.purged(h.expired_at(now)).entries.contains_key(id) <==> now - h.entries[id].made_at
            <= h.config.entry_ttl.nanos,
        !h.is_expired(id, now) ==> h.purged(h.expired_at(now)).entries[id] == h.entries[id],
        now <= h.entries[id].made_at ==> !h.is_expired(id, now),
        now <= later && h.is_expired(id, now) ==> h.is_expired(id, later),
{
}

} // verus!
