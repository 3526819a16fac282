//! Moving a resting exit leg to a new trigger price.
//!
//! Prefers the provider's native modify, which is atomic at the broker. Where
//! that is unsupported the leg is cancelled and re-placed, and a rejected
//! replacement is followed by restoring the original exit -- so a failed move
//! leaves the position exactly as protected as it was before the call.

use vstd::prelude::*;
use crate::decimal::Decimal;
use crate::error::{GatewayError, GatewayErrorView};
use crate::models::{ModifyOrderRequest, OrderRequest};
use crate::text::{join2, join3, opt_text, same};
use crate::time::Timestamp;
use super::coverage::{active_coverage, counts};
use super::fill_handler::{is_exit_request, law_client_ids_differ};
use super::handler::{ExitHandler, HandlerView};
use super::order_list::OrderList;
use super::types::{
    ActualOrder, ActualOrderStatus, ExitEntry, ExitEntryStatus, ExitEntryView, ExitLegType,
    StatusView,
};

verus! {

/// Where an exit leg rests after it was moved.
#[derive(Debug)]
pub struct ExitLegPlacement {
    /// The orders that hold the leg.
    pub order_ids: Vec<String>,
    /// The price at which they trigger.
    pub trigger_price: Decimal,
}

/// Why a leg could not be moved, and whether the position still has cover.
#[derive(Debug)]
pub enum ReplaceExitLegError {
    /// The move failed with the original exit still live at the provider.
    StillProtected(GatewayError),
    /// The original was cancelled and neither the replacement nor the restore
    /// was accepted -- the position has no exit order covering this leg.
    Unprotected {
        /// The exit order that was cancelled and could not be re-established.
        cancelled_order_id: String,
        /// Why the replacement was rejected.
        source: GatewayError,
        /// Why restoring the original failed.
        restore_error: GatewayError,
    },
}

/// How far the move of a resting order has come: what was last asked of the provider.
#[derive(Debug)]
pub enum MovePhase {
    /// The order is to be modified in place.
    Modifying,
    /// The order is to be cancelled.
    Cancelling,
    /// The replacement is to be accepted.
    Replacing,
    /// The replacement was refused, and the original is to be accepted again.
    Restoring {
        /// Why the replacement was rejected.
        replace_error: GatewayError,
    },
}

/// What the provider answered during the move of a resting order.
#[derive(Debug)]
pub enum MoveAnswer {
    /// What was asked is done; the order has this ID.
    Accepted { order_id: String },
    /// What was asked is refused.
    Refused(GatewayError),
}

/// What is done next during the move of a resting order.
#[derive(Debug)]
pub enum MoveStep {
    /// The order is to be cancelled.
    Cancel,
    /// The replacement is to be submitted.
    Replace(OrderRequest),
    /// The original is to be submitted again.
    Restore { request: OrderRequest, replace_error: GatewayError },
    /// The order is moved; this order holds it now.
    Moved { order_id: String },
    /// The order is not moved.
    Failed(ReplaceExitLegError),
    /// The quantity of the order that is not filled is out of the range of decimals.
    OutOfRange,
}

/// The place of an order in a list of orders.
pub open spec fn place_of(orders: Seq<ActualOrder>, id: Seq<char>) -> Option<int>
    decreases orders.len(),
{
    if orders.len() == 0 {
        None
    } else {
        match place_of(orders.drop_last(), id) {
            Some(i) => Some(i),
            None => if orders.last().order_id@ == id {
                Some(orders.len() - 1)
            } else {
                None
            },
        }
    }
}

/// The orders with one in the place of another, or at the end where the other is not there.
pub open spec fn with_replacement(
    orders: Seq<ActualOrder>,
    previous: Seq<char>,
    replacement: ActualOrder,
) -> Seq<ActualOrder> {
    match place_of(orders, previous) {
        Some(i) => orders.update(i, replacement),
        None => orders.push(replacement),
    }
}

/// The order that holds what of a resting order was not filled.
pub open spec fn replacement_of(
    previous: ActualOrder,
    order_id: String,
    now: Timestamp,
) -> ActualOrder {
    ActualOrder {
        order_id,
        quantity: previous.spec_remaining(),
        placed_at: now,
        status: ActualOrderStatus::Open,
        leg_type: previous.leg_type,
    }
}

impl ExitEntryView {
    /// The entry once an order was moved to a trigger price.
    pub open spec fn moved(
        self,
        previous: Seq<char>,
        replacement: ActualOrder,
        trigger_price: Decimal,
        now: Timestamp,
    ) -> ExitEntryView {
        let orders = with_replacement(self.status.orders(), previous, replacement);
        ExitEntryView {
            trigger_price,
            status: match self.status {
                StatusView::PartiallyTriggered { filled_qty, total_qty, .. } => {
                    StatusView::PartiallyTriggered { filled_qty, total_qty, actual_orders: orders }
                },
                StatusView::Failed { error, retry_count, failed_at, .. } => StatusView::Failed {
                    error,
                    retry_count,
                    failed_at,
                    actual_orders: orders,
                },
                _ => StatusView::Placed { actual_orders: orders },
            },
            version: self.version.wrapping_add(1),
            updated_at: Some(now),
            ..self
        }
    }

    /// Whether an entry is the live exit leg of a position.
    pub open spec fn is_live_leg(self, position_id: Seq<char>, leg_type: ExitLegType) -> bool {
        &&& self.position_id == Some(position_id)
        &&& self.order_type == leg_type
        &&& self.status is Placed || self.status is PartiallyTriggered
        &&& exists|i: int|
            0 <= i < self.status.orders().len() && (#[trigger] self.status.orders()[i]).spec_active()
    }
}

impl HandlerView {
    /// The handler with an order moved.
    pub open spec fn with_moved(
        self,
        id: Seq<char>,
        previous: ActualOrder,
        order_id: String,
        trigger_price: Decimal,
        now: Timestamp,
    ) -> HandlerView {
        self.changed(
            id,
            |e: ExitEntryView|
                e.moved(
                    previous.order_id@,
                    replacement_of(previous, order_id, now),
                    trigger_price,
                    now,
                ),
        )
    }
}

/// Why a leg without resting orders cannot be moved.
pub open spec fn nothing_resting(id: Seq<char>, leg_type: ExitLegType) -> GatewayErrorView {
    GatewayErrorView::OrderNotModifiable {
        order_id: id,
        reason: leg_type.spec_text() + " leg has no resting order to move"@,
    }
}

/// What is told of a replacement that was refused while the original was restored.
pub open spec fn restored_error(order_id: Seq<char>, replace_error: GatewayErrorView) -> GatewayErrorView {
    GatewayErrorView::OrderNotModifiable {
        order_id,
        reason: "replacement rejected ("@ + replace_error.text()
            + "); the original exit was restored"@,
    }
}

/// The modification that moves a resting order to a trigger price.
pub open spec fn modification(leg_type: ExitLegType, trigger_price: Decimal) -> ModifyOrderRequest {
    ModifyOrderRequest {
        limit_price: if leg_type == ExitLegType::TakeProfit {
            Some(trigger_price)
        } else {
            None
        },
        stop_price: if leg_type == ExitLegType::StopLoss {
            Some(trigger_price)
        } else {
            None
        },
        quantity: None,
        stop_loss: None,
        take_profit: None,
        trailing_distance: None,
    }
}

/// A stop-loss leg rests as a stop order and a take-profit as a limit order, so
/// each carries its trigger in a different field.
pub fn modify_request(leg_type: ExitLegType, trigger_price: Decimal) -> (r: ModifyOrderRequest)
    ensures
        r == (ModifyOrderRequest {
            limit_price: if leg_type == ExitLegType::TakeProfit {
                Some(trigger_price)
            } else {
                None
            },
            stop_price: if leg_type == ExitLegType::StopLoss {
                Some(trigger_price)
            } else {
                None
            },
            quantity: None,
            stop_loss: None,
            take_profit: None,
            trailing_distance: None,
        }),
        r == modification(leg_type, trigger_price),
{
    let mut r = ModifyOrderRequest::default();
    match leg_type {
        ExitLegType::StopLoss => {
            r.stop_price = Some(trigger_price);
        },
        ExitLegType::TakeProfit => {
            r.limit_price = Some(trigger_price);
        },
    }
    r
}

fn has_active(orders: &Vec<ActualOrder>) -> (any: bool)
    ensures
        any == exists|i: int| 0 <= i < orders@.len() && (#[trigger] orders@[i]).spec_active(),
{
    let mut i: usize = 0;
    while i < orders.len()
        invariant
            i <= orders.len(),
            forall|j: int| 0 <= j < i ==> !(#[trigger] orders@[j]).spec_active(),
        decreases orders.len() - i,
    {
        if orders[i].is_active() {
            return true;
        }
        i = i + 1;
    }
    false
}

impl ExitHandler {
    /// The live exit leg of `leg_type` protecting `position_id`, if it is known.
    ///
    /// A leg only becomes resolvable by position once its entry order has
    /// filled and the provider reported a position id.
    pub fn live_exit_leg(&self, position_id: &str, leg_type: ExitLegType) -> (leg: Option<ExitEntry>)
        requires
            self.wf(),
        ensures
            match leg {
                Some(e) => e@.is_live_leg(position_id@, leg_type) && self@.entries.contains_key(
                    e@.placeholder_id,
                ) && self@.entries[e@.placeholder_id] == e@,
                None => forall|id: Seq<char>| #[trigger]
                    self@.entries.contains_key(id) ==> !self@.entries[id].is_live_leg(
                        position_id@,
                        leg_type,
                    ),
            },
    {
        let n: usize = self.row_count();
        let mut i: usize = 0;
        while i < n
            invariant
                i <= n,
                self.wf(),
                n == self.rows().len(),
                forall|j: int|
                    0 <= j < i ==> !self@.entries[#[trigger] self.rows()[j]].is_live_leg(
                        position_id@,
                        leg_type,
                    ),
            decreases n - i,
        {
            let entry = self.row(i);
            let of_position = match &entry.position_id {
                Some(p) => same(p.as_str(), position_id),
                None => false,
            };
            let resting = match &entry.status {
                ExitEntryStatus::Placed { .. } | ExitEntryStatus::PartiallyTriggered { .. } => true,
                _ => false,
            };
            if of_position && resting && entry.order_type == leg_type && has_active(
                &ExitHandler::get_actual_orders_from_entry(entry),
            ) {
                return Some(entry.clone());
            }
            i = i + 1;
        }
        proof {
            self.lemma_rows();
            assert forall|id: Seq<char>| #[trigger] self@.entries.contains_key(id) implies
                !self@.entries[id].is_live_leg(position_id@, leg_type) by {
                assert(self.rows().contains(id));
                let j = choose|j: int| 0 <= j < self.rows().len() && self.rows()[j] == id;
                assert(self.rows()[j] == id);
            }
        }
        None
    }

    /// The resting orders that have to be moved for a leg to be moved.
    ///
    /// A leg spans one order per partial fill; leaving any of them at the old
    /// trigger would report a move that only partly happened.
    pub fn plan_leg_move(&self, placeholder_id: &str) -> (result: Result<
        (ExitEntry, Vec<ActualOrder>),
        ReplaceExitLegError,
    >)
        requires
            self.wf(),
        ensures
            match result {
                Ok((entry, resting)) => {
                    &&& self@.entries.contains_key(placeholder_id@)
                    &&& entry@ == self@.entries[placeholder_id@]
                    &&& resting@ == entry@.status.orders().filter(|o: ActualOrder| o.spec_active())
                    &&& resting@.len() > 0
                },
                Err(ReplaceExitLegError::StillProtected(e)) => if self@.entries.contains_key(
                    placeholder_id@,
                ) {
                    let entry = self@.entries[placeholder_id@];
                    entry.status.orders().filter(|o: ActualOrder| o.spec_active()).len() == 0 && e@
                        == nothing_resting(placeholder_id@, entry.order_type)
                } else {
                    e@ == (GatewayErrorView::OrderNotFound { id: placeholder_id@ })
                },
                Err(ReplaceExitLegError::Unprotected { .. }) => false,
            },
    {
        let entry = match self.get_entry(placeholder_id) {
            Some(entry) => entry,
            None => {
                return Err(
                    ReplaceExitLegError::StillProtected(
                        GatewayError::OrderNotFound { id: placeholder_id.to_owned() },
                    ),
                );
            },
        };
        let orders = ExitHandler::get_actual_orders_from_entry(&entry);
        let ghost active = |o: ActualOrder| o.spec_active();
        let mut resting: Vec<ActualOrder> = Vec::new();
        let mut i: usize = 0;
        assert(resting@ =~= orders@.take(0).filter(active)) by {
            reveal(Seq::filter);
        }
        while i < orders.len()
            invariant
                i <= orders.len(),
                active == |o: ActualOrder| o.spec_active(),
                resting@ == orders@.take(i as int).filter(active),
            decreases orders.len() - i,
        {
            proof {
                super::handler::lemma_filter_next(orders@, i as int, active);
            }
            if orders[i].is_active() {
                resting.push(orders[i].clone());
            }
            i = i + 1;
        }
        assert(orders@.take(i as int) =~= orders@);
        if resting.len() == 0 {
            return Err(
                ReplaceExitLegError::StillProtected(
                    GatewayError::OrderNotModifiable {
                        order_id: placeholder_id.to_owned(),
                        reason: join2(
                            entry.order_type.as_str(),
                            " leg has no resting order to move",
                        ),
                    },
                ),
            );
        }
        Ok((entry, resting))
    }

    /// Moves one resting order, step by step: what is done once the provider has answered.
    ///
    /// A provider that cannot modify the order in place is asked to cancel it and to accept
    /// the replacement. The exit is off the book between the cancel and the replacement being
    /// accepted; a rejected replacement is followed by re-placing the original,
    /// and only a failed restore leaves the position uncovered. Only the unfilled remainder
    /// is placed again: the order's original size would over-hedge a partially filled exit.
    pub fn move_step(
        &mut self,
        placeholder_id: &str,
        entry: &ExitEntry,
        resting: &ActualOrder,
        new_trigger_price: Decimal,
        phase: MovePhase,
        answer: MoveAnswer,
        now: Timestamp,
    ) -> (step: MoveStep)
        requires
            old(self).wf(),
        ensures
            final(self).wf(),
            match (phase, answer) {
                (MovePhase::Modifying, MoveAnswer::Accepted { order_id })
                | (MovePhase::Replacing, MoveAnswer::Accepted { order_id }) => {
                    if resting.remaining_exists() {
                        step is Moved && step->Moved_order_id@ == order_id@ && final(self)@ == old(self)@.with_moved(placeholder_id@, *resting, order_id, new_trigger_price, now)
                    } else {
                        step is OutOfRange && final(self)@ == old(self)@
                    }
                },
                (MovePhase::Modifying, MoveAnswer::Refused(e)) => final(self)@ == old(self)@ && (
                if e is UnsupportedOperation {
                    step is Cancel
                } else {
                    step == MoveStep::Failed(ReplaceExitLegError::StillProtected(e))
                }),
                (MovePhase::Cancelling, MoveAnswer::Refused(e)) => final(self)@ == old(self)@
                    && step == MoveStep::Failed(ReplaceExitLegError::StillProtected(e)),
                (MovePhase::Cancelling, MoveAnswer::Accepted { .. }) => {
                    if resting.remaining_exists() {
                        &&& final(self)@ == old(self)@.with_request(placeholder_id@)
                        &&& step is Replace
                        &&& is_exit_request(
                            step->Replace_0,
                            ExitEntryView { trigger_price: new_trigger_price, ..entry@ },
                            resting.spec_remaining(),
                            old(self)@.placed_count(placeholder_id@),
                            opt_text(entry.position_id),
                        )
                    } else {
                        step is OutOfRange && final(self)@ == old(self)@
                    }
                },
                (MovePhase::Replacing, MoveAnswer::Refused(e)) => {
                    if resting.remaining_exists() {
                        &&& final(self)@ == old(self)@.with_request(placeholder_id@)
                        &&& step is Restore
                        &&& step->replace_error == e
                        &&& is_exit_request(
                            step->request,
                            entry@,
                            resting.spec_remaining(),
                            old(self)@.placed_count(placeholder_id@),
                            opt_text(entry.position_id),
                        )
                    } else {
                        step is OutOfRange && final(self)@ == old(self)@
                    }
                },
                (MovePhase::Restoring { replace_error }, MoveAnswer::Accepted { order_id }) => {
                    if resting.remaining_exists() {
                        step is Failed && (step->Failed_0 matches ReplaceExitLegError::StillProtected(
                            e,
                        ) && e@ == restored_error(resting.order_id@, replace_error@)) && final(self)@
                            == old(self)@.with_moved(
                            placeholder_id@,
                            *resting,
                            order_id,
                            entry.trigger_price,
                            now,
                        )
                    } else {
                        step is OutOfRange && final(self)@ == old(self)@
                    }
                },
                (MovePhase::Restoring { replace_error }, MoveAnswer::Refused(e)) => {
                    &&& step is Failed
                    &&& step->Failed_0 matches ReplaceExitLegError::Unprotected {
                        cancelled_order_id,
                        source,
                        restore_error,
                    }
                    &&& cancelled_order_id@ == resting.order_id@
                    &&& source == replace_error
                    &&& restore_error == e
                    &&& final(self)@ == old(self)@.with_failed(
                        placeholder_id@,
                        e@.text(),
                        0,
                        now,
                    )
                },
            },
    {
        match (phase, answer) {
            (MovePhase::Modifying, MoveAnswer::Accepted { order_id })
            | (MovePhase::Replacing, MoveAnswer::Accepted { order_id }) => {
                let held = order_id.clone();
                if self.record_moved_leg(placeholder_id, resting, order_id, new_trigger_price, now) {
                    MoveStep::Moved { order_id: held }
                } else {
                    MoveStep::OutOfRange
                }
            },
            (MovePhase::Modifying, MoveAnswer::Refused(e)) => {
                let unsupported = match &e {
                    GatewayError::UnsupportedOperation { .. } => true,
                    _ => false,
                };
                if unsupported {
                    MoveStep::Cancel
                } else {
                    MoveStep::Failed(ReplaceExitLegError::StillProtected(e))
                }
            },
            (MovePhase::Cancelling, MoveAnswer::Refused(e)) => MoveStep::Failed(
                ReplaceExitLegError::StillProtected(e),
            ),
            (MovePhase::Cancelling, MoveAnswer::Accepted { .. }) => {
                match resting.checked_remaining_qty() {
                    Some(quantity) => {
                        let mut moved = entry.clone();
                        moved.trigger_price = new_trigger_price;
                        assert(moved@ =~= (ExitEntryView {
                            trigger_price: new_trigger_price,
                            ..entry@
                        }));
                        let request = ExitHandler::build_positioned_exit_request(
                            &moved,
                            quantity,
                            self.placed_count(placeholder_id),
                            entry.position_id.clone(),
                        );
                        self.count_request(placeholder_id);
                        MoveStep::Replace(request)
                    },
                    None => MoveStep::OutOfRange,
                }
            },
            (MovePhase::Replacing, MoveAnswer::Refused(e)) => {
                match resting.checked_remaining_qty() {
                    Some(quantity) => {
                        let request = ExitHandler::build_positioned_exit_request(
                            entry,
                            quantity,
                            self.placed_count(placeholder_id),
                            entry.position_id.clone(),
                        );
                        self.count_request(placeholder_id);
                        MoveStep::Restore { request, replace_error: e }
                    },
                    None => MoveStep::OutOfRange,
                }
            },
            (MovePhase::Restoring { replace_error }, MoveAnswer::Accepted { order_id }) => {
                if self.record_moved_leg(
                    placeholder_id,
                    resting,
                    order_id,
                    entry.trigger_price,
                    now,
                ) {
                    MoveStep::Failed(
                        ReplaceExitLegError::StillProtected(
                            GatewayError::OrderNotModifiable {
                                order_id: resting.order_id.clone(),
                                reason: join3(
                                    "replacement rejected (",
                                    replace_error.to_text().as_str(),
                                    "); the original exit was restored",
                                ),
                            },
                        ),
                    )
                } else {
                    MoveStep::OutOfRange
                }
            },
            (MovePhase::Restoring { replace_error }, MoveAnswer::Refused(restore_error)) => {
                self.update_entry_to_failed_at(
                    placeholder_id,
                    restore_error.to_text().as_str(),
                    0,
                    now,
                );
                MoveStep::Failed(
                    ReplaceExitLegError::Unprotected {
                        cancelled_order_id: resting.order_id.clone(),
                        source: replace_error,
                        restore_error,
                    },
                )
            },
        }
    }

    /// Orders placed for this entry so far, which seeds the replacement's
    /// `client_order_id`. Read live so successive moves never reuse an id: every order that a
    /// move asks for counts.
    fn placed_count(&self, placeholder_id: &str) -> (n: usize)
        requires
            self.wf(),
        ensures
            n == self@.placed_count(placeholder_id@),
    {
        match self.entry(placeholder_id) {
            Some(entry) => entry.placed_count(),
            None => 0,
        }
    }

    /// Point the entry at the order now holding the leg, at its new trigger.
    ///
    /// Without this a later cancel-on-close would chase the replaced order id. Returns whether
    /// the unfilled quantity is a decimal; nothing is recorded where it is not.
    fn record_moved_leg(
        &mut self,
        placeholder_id: &str,
        previous: &ActualOrder,
        new_order_id: String,
        trigger_price: Decimal,
        now: Timestamp,
    ) -> (recorded: bool)
        requires
            old(self).wf(),
        ensures
            final(self).wf(),
            recorded == previous.remaining_exists(),
            final(self)@ == (if recorded {
                old(self)@.with_moved(placeholder_id@, *previous, new_order_id, trigger_price, now)
            } else {
                old(self)@
            }),
    {
        proof {
            self.lemma_rows();
        }
        let quantity = match previous.checked_remaining_qty() {
            Some(quantity) => quantity,
            None => {
                return false;
            },
        };
        match self.get_entry(placeholder_id) {
            Some(entry) => {
                let ghost was = entry@;
                let mut entry = entry;
                let replacement = ActualOrder {
                    order_id: new_order_id,
                    quantity,
                    placed_at: now,
                    status: ActualOrderStatus::Open,
                    leg_type: previous.leg_type,
                };
                let ghost held = replacement;
                let orders = replace_order(
                    &entry.status.actual_orders(),
                    previous.order_id.as_str(),
                    replacement,
                );
                let status = match &entry.status {
                    ExitEntryStatus::PartiallyTriggered { filled_qty, total_qty, .. } => {
                        ExitEntryStatus::PartiallyTriggered {
                            filled_qty: *filled_qty,
                            total_qty: *total_qty,
                            actual_orders: orders,
                        }
                    },
                    ExitEntryStatus::Failed { error, retry_count, failed_at, .. } => {
                        ExitEntryStatus::Failed {
                            error: error.clone(),
                            retry_count: *retry_count,
                            failed_at: *failed_at,
                            actual_orders: orders,
                        }
                    },
                    _ => ExitEntryStatus::Placed { actual_orders: orders },
                };
                entry.trigger_price = trigger_price;
                entry.status = status;
                entry.increment_version_at(now);
                assert(entry@ =~= was.moved(previous.order_id@, held, trigger_price, now));
                self.put_entry(entry);
            },
            None => {},
        }
        true
    }
}

/// Puts an order in the place of another, or at the end where the other is not there.
fn replace_order(orders: &OrderList, previous: &str, replacement: ActualOrder) -> (result: OrderList)
    ensures
        result@ == with_replacement(orders@, previous@, replacement),
{
    let n: usize = orders.len();
    let mut result = OrderList::new();
    let mut i: usize = 0;
    while i < n
        invariant
            i <= n,
            n == orders@.len(),
            result@ == orders@.take(i as int),
            place_of(orders@.take(i as int), previous@) is None,
        decreases n - i,
    {
        proof {
            let longer = orders@.take(i + 1);
            assert(longer.drop_last() =~= orders@.take(i as int));
            assert(longer.last() == orders@[i as int]);
        }
        if same(orders.get(i).order_id.as_str(), previous) {
            result.push(replacement);
            proof {
                lemma_place_in_prefix(orders@, previous@, i + 1);
                assert(result@ =~= orders@.update(i as int, replacement).take(i + 1));
            }
            let mut k: usize = i + 1;
            while k < n
                invariant
                    i < k <= n,
                    n == orders@.len(),
                    result@ == orders@.update(i as int, replacement).take(k as int),
                decreases n - k,
            {
                result.push(orders.get(k).clone());
                assert(result@ =~= orders@.update(i as int, replacement).take(k + 1));
                k = k + 1;
            }
            assert(result@ =~= orders@.update(i as int, replacement));
            return result;
        }
        result.push(orders.get(i).clone());
        assert(result@ =~= orders@.take(i + 1));
        i = i + 1;
    }
    assert(orders@.take(n as int) =~= orders@);
    result.push(replacement);
    result
}

/// An order that is found in the first part of a list is found there in the whole list.
proof fn lemma_place_in_prefix(orders: Seq<ActualOrder>, id: Seq<char>, n: int)
    requires
        0 <= n <= orders.len(),
        place_of(orders.take(n), id) is Some,
    ensures
        place_of(orders, id) == place_of(orders.take(n), id),
    decreases orders.len(),
{
    if n < orders.len() {
        assert(orders.drop_last().take(n) =~= orders.take(n));
        lemma_place_in_prefix(orders.drop_last(), id, n);
    } else {
        assert(orders.take(n) =~= orders);
    }
}

// ---------------------------------------------------------------------------------------
// Laws
// ---------------------------------------------------------------------------------------

proof fn lemma_place_is_there(orders: Seq<ActualOrder>, id: Seq<char>)
    ensures
        place_of(orders, id) matches Some(i) ==> 0 <= i < orders.len() && orders[i].order_id@ == id,
    decreases orders.len(),
{
    if orders.len() > 0 {
        lemma_place_is_there(orders.drop_last(), id);
    }
}

/// Putting an order for the unfilled rest of an active order in its place changes nothing of
/// what a leg covers.
proof fn lemma_update_keeps_coverage(
    orders: Seq<ActualOrder>,
    i: int,
    order_id: String,
    now: Timestamp,
    leg_type: ExitLegType,
)
    requires
        0 <= i < orders.len(),
        orders[i].spec_active(),
    ensures
        active_coverage(orders.update(i, replacement_of(orders[i], order_id, now)), leg_type)
            == active_coverage(orders, leg_type),
    decreases orders.len(),
{
    let replacement = replacement_of(orders[i], order_id, now);
    let changed = orders.update(i, replacement);
    let last = orders.len() - 1;
    if i == last {
        assert(changed.drop_last() =~= orders.drop_last());
        assert(changed.last() == replacement);
        assert(counts(replacement, leg_type) == counts(orders.last(), leg_type));
        assert(replacement.spec_remaining() == orders.last().spec_remaining());
    } else {
        assert(changed.drop_last() =~= orders.drop_last().update(i, replacement));
        assert(changed.last() == orders.last());
        lemma_update_keeps_coverage(orders.drop_last(), i, order_id, now, leg_type);
    }
}

/// A move keeps the cover of the position: once an active order of an entry is moved, or its
/// original restored, each leg covers exactly what it covered before.
pub proof fn law_move_keeps_coverage(
    entry: ExitEntryView,
    previous: ActualOrder,
    order_id: String,
    trigger_price: Decimal,
    now: Timestamp,
    leg_type: ExitLegType,
)
    requires
        previous.spec_active(),
        place_of(entry.status.orders(), previous.order_id@) matches Some(i)
            && entry.status.orders()[i] == previous,
    ensures
        active_coverage(
            entry.moved(
                previous.order_id@,
                replacement_of(previous, order_id, now),
                trigger_price,
                now,
            ).status.orders(),
            leg_type,
        ) == active_coverage(entry.status.orders(), leg_type),
{
    let orders = entry.status.orders();
    lemma_place_is_there(orders, previous.order_id@);
    let i = place_of(orders, previous.order_id@)->0;
    lemma_update_keeps_coverage(orders, i, order_id, now, leg_type);
}

/// Every order that is asked for makes the next one another, and no step of a move that asks
/// for none takes that back.
proof fn lemma_requests_count_up(
    h: HandlerView,
    id: Seq<char>,
    previous: ActualOrder,
    order_id: String,
    trigger_price: Decimal,
    error: Seq<char>,
    now: Timestamp,
)
    requires
        h.entries.contains_key(id),
        h.placed_count(id) < usize::MAX,
    ensures
        h.with_request(id).placed_count(id) == h.placed_count(id) + 1,
        h.with_moved(id, previous, order_id, trigger_price, now).placed_count(id)
            >= h.placed_count(id),
        h.with_failed(id, error, 0, now).placed_count(id) == h.placed_count(id),
{
    let replacement = replacement_of(previous, order_id, now);
    let orders = h.entries[id].status.orders();
    let moved = h.entries[id].moved(previous.order_id@, replacement, trigger_price, now);
    lemma_place_is_there(orders, previous.order_id@);
    assert(moved.status.orders() == with_replacement(orders, previous.order_id@, replacement));
    assert(h.with_moved(id, previous, order_id, trigger_price, now).entries[id] == moved);
}

/// Successive moves never reuse an ID: the order that a move asks for has another client order
/// ID than that which the move before asked for, and so has the order that restores the
/// original, whether the move before succeeded, was undone or left the leg uncovered, and
/// whether both moved the same resting order of the leg or not.
pub proof fn law_moves_never_reuse_an_id(
    h: HandlerView,
    id: Seq<char>,
    first: OrderRequest,
    restoring: OrderRequest,
    second: OrderRequest,
    previous: ActualOrder,
    order_id: String,
    trigger_price: Decimal,
    error: Seq<char>,
    now: Timestamp,
    quantities: (Decimal, Decimal, Decimal),
    entries: (ExitEntryView, ExitEntryView, ExitEntryView),
    positions: (Option<Seq<char>>, Option<Seq<char>>, Option<Seq<char>>),
    outcome: HandlerView,
)
    requires
        h.entries.contains_key(id),
        h.placed_count(id) + 2 < usize::MAX,
        entries.0.primary_order_id == entries.1.primary_order_id,
        entries.0.primary_order_id == entries.2.primary_order_id,
        entries.0.order_type == entries.1.order_type,
        entries.0.order_type == entries.2.order_type,
        is_exit_request(first, entries.0, quantities.0, h.placed_count(id), positions.0),
        is_exit_request(
            restoring,
            entries.1,
            quantities.1,
            h.with_request(id).placed_count(id),
            positions.1,
        ),
        outcome == h.with_request(id).with_moved(id, previous, order_id, trigger_price, now)
            || outcome == h.with_request(id).with_request(id).with_moved(
            id,
            previous,
            order_id,
            trigger_price,
            now,
        ) || outcome == h.with_request(id).with_request(id).with_failed(id, error, 0, now),
        is_exit_request(second, entries.2, quantities.2, outcome.placed_count(id), positions.2),
    ensures
        opt_text(first.client_order_id) != opt_text(second.client_order_id),
        opt_text(first.client_order_id) != opt_text(restoring.client_order_id),
        outcome != h.with_request(id).with_moved(id, previous, order_id, trigger_price, now)
            ==> opt_text(restoring.client_order_id) != opt_text(second.client_order_id),
{
    let asked = h.with_request(id);
    let again = asked.with_request(id);
    lemma_requests_count_up(h, id, previous, order_id, trigger_price, error, now);
    lemma_requests_count_up(asked, id, previous, order_id, trigger_price, error, now);
    lemma_requests_count_up(again, id, previous, order_id, trigger_price, error, now);
    let primary = entries.0.primary_order_id;
    let leg = entries.0.order_type;
    law_client_ids_differ(primary, leg, h.placed_count(id), outcome.placed_count(id));
    law_client_ids_differ(primary, leg, h.placed_count(id), asked.placed_count(id));
    if asked.placed_count(id) != outcome.placed_count(id) {
        law_client_ids_differ(primary, leg, asked.placed_count(id), outcome.placed_count(id));
    }
}

} // verus!
