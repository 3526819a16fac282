//! Exit order coverage tracking.
//!
//! How much of a position is covered by **active** exit orders only (Open,
//! `PartiallyFilled`), not terminal orders (Filled, Cancelled, Rejected, Expired).

use vstd::prelude::*;
use crate::decimal::{Decimal, lemma_zero, sums_exactly, units_in_range};
use super::types::{ActualOrder, ActualOrderStatus, ExitLegType};

verus! {

/// Tracks coverage for a single entry order's exit legs.
///
/// Both stop-loss and take-profit cover the **same** position (not additive).
#[derive(Debug, Clone, Copy)]
pub struct ExitCoverage {
    /// Total filled quantity on the primary/entry order.
    pub filled_qty: Decimal,
    /// Quantity covered by ACTIVE stop-loss orders only.
    pub sl_covered: Decimal,
    /// Quantity covered by ACTIVE take-profit orders only.
    pub tp_covered: Decimal,
}

/// What of a quantity is not covered; covering too much leaves nothing uncovered.
pub open spec fn uncovered(filled: Decimal, covered: Decimal) -> Decimal {
    filled.spec_minus(covered).spec_positive_part()
}

impl ExitCoverage {
    /// Creates a new coverage tracker with zero coverage.
    pub fn new(filled_qty: Decimal) -> (c: ExitCoverage)
        ensures
            c == (ExitCoverage {
                filled_qty,
                sl_covered: Decimal::spec_zero(),
                tp_covered: Decimal::spec_zero(),
            }),
    {
        ExitCoverage { filled_qty, sl_covered: Decimal::zero(), tp_covered: Decimal::zero() }
    }

    /// The quantity that a leg covers.
    pub open spec fn covered(self, leg_type: ExitLegType) -> Decimal {
        match leg_type {
            ExitLegType::StopLoss => self.sl_covered,
            ExitLegType::TakeProfit => self.tp_covered,
        }
    }

    /// Whether what a leg leaves uncovered lies in the range of decimals.
    pub open spec fn in_range(self, leg_type: ExitLegType) -> bool {
        units_in_range(self.filled_qty@ - self.covered(leg_type)@)
    }

    /// Returns quantity that still needs stop-loss protection.
    pub fn qty_needing_sl(&self) -> (qty: Decimal)
        requires
            self.in_range(ExitLegType::StopLoss),
        ensures
            qty == uncovered(self.filled_qty, self.sl_covered),
    {
        self.filled_qty.minus(&self.sl_covered).positive_part()
    }

    /// Returns quantity that still needs take-profit protection.
    pub fn qty_needing_tp(&self) -> (qty: Decimal)
        requires
            self.in_range(ExitLegType::TakeProfit),
        ensures
            qty == uncovered(self.filled_qty, self.tp_covered),
    {
        self.filled_qty.minus(&self.tp_covered).positive_part()
    }

    /// Returns quantity needing coverage for a specific leg type.
    pub fn qty_needing(&self, leg_type: ExitLegType) -> (qty: Decimal)
        requires
            self.in_range(leg_type),
        ensures
            qty == uncovered(self.filled_qty, self.covered(leg_type)),
    {
        match leg_type {
            ExitLegType::StopLoss => self.qty_needing_sl(),
            ExitLegType::TakeProfit => self.qty_needing_tp(),
        }
    }

    /// Whether both legs leave nothing uncovered.
    pub open spec fn covers_all(self) -> bool {
        uncovered(self.filled_qty, self.sl_covered)@ == 0 && uncovered(
            self.filled_qty,
            self.tp_covered,
        )@ == 0
    }

    /// Returns true if position is fully covered by both SL and TP.
    pub fn is_fully_covered(&self) -> (full: bool)
        requires
            self.in_range(ExitLegType::StopLoss),
            self.in_range(ExitLegType::TakeProfit),
        ensures
            full == self.covers_all(),
    {
        self.qty_needing_sl().is_zero() && self.qty_needing_tp().is_zero()
    }

    /// Returns true if position has any coverage gap.
    pub fn has_gap(&self) -> (gap: bool)
        requires
            self.in_range(ExitLegType::StopLoss),
            self.in_range(ExitLegType::TakeProfit),
        ensures
            gap == !self.covers_all(),
    {
        !self.is_fully_covered()
    }
}

impl Default for ExitCoverage {
    fn default() -> (c: ExitCoverage)
        ensures
            c == (ExitCoverage {
                filled_qty: Decimal::spec_zero(),
                sl_covered: Decimal::spec_zero(),
                tp_covered: Decimal::spec_zero(),
            }),
    {
        ExitCoverage::new(Decimal::zero())
    }
}

/// Whether an order counts towards the coverage of a leg.
pub open spec fn counts(order: ActualOrder, leg_type: ExitLegType) -> bool {
    order.spec_active() && order.leg_type == leg_type
}

/// The sum of the remaining quantities of the active orders of a leg.
pub open spec fn active_coverage(orders: Seq<ActualOrder>, leg_type: ExitLegType) -> Decimal
    decreases orders.len(),
{
    if orders.len() == 0 {
        Decimal::spec_zero()
    } else {
        let before = active_coverage(orders.drop_last(), leg_type);
        if counts(orders.last(), leg_type) {
            before.spec_plus(orders.last().spec_remaining())
        } else {
            before
        }
    }
}

/// Whether every remaining quantity and every sum on the way is a decimal.
pub open spec fn coverage_adds_up(orders: Seq<ActualOrder>, leg_type: ExitLegType) -> bool
    decreases orders.len(),
{
    orders.len() == 0 || {
        &&& coverage_adds_up(orders.drop_last(), leg_type)
        &&& counts(orders.last(), leg_type) ==> orders.last().remaining_exists()
            && active_coverage(orders.drop_last(), leg_type).adds(orders.last().spec_remaining())
    }
}

/// The sum of the remaining quantities of the active orders of a leg, as a number of units.
pub open spec fn covered_units(orders: Seq<ActualOrder>, leg_type: ExitLegType) -> int
    decreases orders.len(),
{
    if orders.len() == 0 {
        0
    } else {
        covered_units(orders.drop_last(), leg_type) + units_of(orders.last(), leg_type)
    }
}

/// What one order adds to the coverage of a leg: what of an active order of the leg is not
/// filled, and nothing else.
pub open spec fn units_of(order: ActualOrder, leg_type: ExitLegType) -> int {
    if counts(order, leg_type) {
        order.spec_remaining()@
    } else {
        0
    }
}

/// Whether no sum on the way needs rounding.
pub open spec fn needs_no_rounding(orders: Seq<ActualOrder>, leg_type: ExitLegType) -> bool
    decreases orders.len(),
{
    orders.len() == 0 || {
        &&& needs_no_rounding(orders.drop_last(), leg_type)
        &&& counts(orders.last(), leg_type) ==> sums_exactly(
            active_coverage(orders.drop_last(), leg_type),
            orders.last().spec_remaining(),
        )
    }
}

/// The coverage of a leg, where all sums on the way are decimals.
fn sum_coverage(existing_orders: &Vec<ActualOrder>, leg_type: ExitLegType) -> (sum: Option<Decimal>)
    ensures
        sum == (if coverage_adds_up(existing_orders@, leg_type) {
            Some(active_coverage(existing_orders@, leg_type))
        } else {
            None::<Decimal>
        }),
        sum matches Some(d) ==> needs_no_rounding(existing_orders@, leg_type) ==> d@
            == covered_units(existing_orders@, leg_type),
{
    let mut sum = Decimal::zero();
    let mut i: usize = 0;
    while i < existing_orders.len()
        invariant
            i <= existing_orders.len(),
            coverage_adds_up(existing_orders@.take(i as int), leg_type),
            sum == active_coverage(existing_orders@.take(i as int), leg_type),
            needs_no_rounding(existing_orders@.take(i as int), leg_type) ==> sum@ == covered_units(
                existing_orders@.take(i as int),
                leg_type,
            ),
        decreases existing_orders.len() - i,
    {
        proof {
            let longer = existing_orders@.take(i + 1);
            assert(longer.drop_last() =~= existing_orders@.take(i as int));
            assert(longer.last() == existing_orders@[i as int]);
            lemma_adds_up_prefix(existing_orders@, leg_type, i + 1);
        }
        if existing_orders[i].is_active() && existing_orders[i].leg_type == leg_type {
            match existing_orders[i].checked_remaining_qty() {
                Some(rest) => match sum.checked_plus(&rest) {
                    Some(next) => {
                        sum = next;
                    },
                    None => {
                        return None;
                    },
                },
                None => {
                    return None;
                },
            }
        }
        i = i + 1;
    }
    assert(existing_orders@.take(i as int) =~= existing_orders@);
    Some(sum)
}

/// Where all sums are decimals, so are those of any first part of the orders.
proof fn lemma_adds_up_prefix(orders: Seq<ActualOrder>, leg_type: ExitLegType, n: int)
    requires
        0 <= n <= orders.len(),
    ensures
        coverage_adds_up(orders, leg_type) ==> coverage_adds_up(orders.take(n), leg_type),
    decreases orders.len(),
{
    if n == orders.len() {
        assert(orders.take(n) =~= orders);
    } else {
        assert(orders.drop_last().take(n) =~= orders.take(n));
        lemma_adds_up_prefix(orders.drop_last(), leg_type, n);
    }
}

/// Calculates active coverage from a list of actual orders.
///
/// Only counts ACTIVE orders (Open, `PartiallyFilled`) using their remaining quantity.
pub fn calculate_active_coverage(existing_orders: &Vec<ActualOrder>, leg_type: ExitLegType) -> (
    sum: Decimal)
    requires
        coverage_adds_up(existing_orders@, leg_type),
    ensures
        sum == active_coverage(existing_orders@, leg_type),
        needs_no_rounding(existing_orders@, leg_type) ==> sum@ == covered_units(
            existing_orders@,
            leg_type,
        ),
{
    match sum_coverage(existing_orders, leg_type) {
        Some(sum) => sum,
        None => Decimal::zero(),
    }
}

/// Calculates active coverage, where all sums on the way are decimals.
pub fn checked_active_coverage(existing_orders: &Vec<ActualOrder>, leg_type: ExitLegType) -> (
    sum: Option<Decimal>)
    ensures
        sum == (if coverage_adds_up(existing_orders@, leg_type) {
            Some(active_coverage(existing_orders@, leg_type))
        } else {
            None::<Decimal>
        }),
{
    if sum_coverage(existing_orders, leg_type).is_some() {
        Some(calculate_active_coverage(existing_orders, leg_type))
    } else {
        None
    }
}

/// Builds a complete coverage snapshot from existing orders.
pub fn build_coverage(filled_qty: Decimal, existing_orders: &Vec<ActualOrder>) -> (c: ExitCoverage)
    requires
        coverage_adds_up(existing_orders@, ExitLegType::StopLoss),
        coverage_adds_up(existing_orders@, ExitLegType::TakeProfit),
    ensures
        c == (ExitCoverage {
            filled_qty,
            sl_covered: active_coverage(existing_orders@, ExitLegType::StopLoss),
            tp_covered: active_coverage(existing_orders@, ExitLegType::TakeProfit),
        }),
{
    ExitCoverage {
        filled_qty,
        sl_covered: calculate_active_coverage(existing_orders, ExitLegType::StopLoss),
        tp_covered: calculate_active_coverage(existing_orders, ExitLegType::TakeProfit),
    }
}

/// Builds a coverage snapshot, where all sums on the way are decimals.
pub fn checked_coverage(filled_qty: Decimal, existing_orders: &Vec<ActualOrder>) -> (c: Option<
    ExitCoverage,
>)
    ensures
        match c {
            Some(coverage) => coverage_adds_up(existing_orders@, ExitLegType::StopLoss)
                && coverage_adds_up(existing_orders@, ExitLegType::TakeProfit) && coverage == (
            ExitCoverage {
                filled_qty,
                sl_covered: active_coverage(existing_orders@, ExitLegType::StopLoss),
                tp_covered: active_coverage(existing_orders@, ExitLegType::TakeProfit),
            }),
            None => !coverage_adds_up(existing_orders@, ExitLegType::StopLoss)
                || !coverage_adds_up(existing_orders@, ExitLegType::TakeProfit),
        },
{
    if sum_coverage(existing_orders, ExitLegType::StopLoss).is_some() && sum_coverage(
        existing_orders,
        ExitLegType::TakeProfit,
    ).is_some() {
        Some(build_coverage(filled_qty, existing_orders))
    } else {
        None
    }
}

// ---------------------------------------------------------------------------------------
// Laws
// ---------------------------------------------------------------------------------------

/// Whether the coverage of some orders, as it was summed up, is the sum of what each adds.
pub open spec fn sums_up(orders: Seq<ActualOrder>, leg_type: ExitLegType) -> bool {
    active_coverage(orders, leg_type)@ == covered_units(orders, leg_type)
}

/// The coverage of two lists of orders together is the sum of both, whatever their order; no
/// orders cover nothing, and a single order covers what it adds: its quantity while it is open,
/// what of it is not filled while it is partially filled, and nothing in the other leg or any
/// other status.
pub proof fn law_coverage_is_a_sum(
    a: Seq<ActualOrder>,
    b: Seq<ActualOrder>,
    order: ActualOrder,
    leg_type: ExitLegType,
)
    ensures
        covered_units(a + b, leg_type) == covered_units(a, leg_type) + covered_units(b, leg_type),
        sums_up(a, leg_type) && sums_up(b, leg_type) && sums_up(a + b, leg_type)
            ==> active_coverage(a + b, leg_type)@ == active_coverage(a, leg_type)@
            + active_coverage(b, leg_type)@,
        covered_units(Seq::empty(), leg_type) == 0,
        sums_up(Seq::empty(), leg_type),
        covered_units(seq![order], leg_type) == units_of(order, leg_type),
        units_of(order, leg_type) == (if order.leg_type != leg_type {
            0
        } else {
            match order.status {
                ActualOrderStatus::Open => order.quantity@,
                ActualOrderStatus::PartiallyFilled { filled_qty, .. } => {
                    order.quantity.spec_minus(filled_qty).spec_positive_part()@
                },
                _ => 0,
            }
        }),
    decreases b.len(),
{
    lemma_zero();
    reveal_with_fuel(covered_units, 2);
    assert(seq![order].drop_last() =~= Seq::<ActualOrder>::empty());
    if b.len() == 0 {
        assert(a + b =~= a);
    } else {
        law_coverage_is_a_sum(a, b.drop_last(), order, leg_type);
        assert((a + b).drop_last() =~= a + b.drop_last());
    }
}

/// Orders of the other leg, and orders that are not active, do not count: only the active
/// orders of a leg decide its coverage.
pub proof fn law_only_active_orders_count(orders: Seq<ActualOrder>, leg_type: ExitLegType)
    ensures
        active_coverage(orders, leg_type) == active_coverage(
            orders.filter(|o: ActualOrder| counts(o, leg_type)),
            leg_type,
        ),
    decreases orders.len(),
{
    let p = |o: ActualOrder| counts(o, leg_type);
    reveal(Seq::filter);
    if orders.len() > 0 {
        law_only_active_orders_count(orders.drop_last(), leg_type);
        if counts(orders.last(), leg_type) {
            let kept = orders.drop_last().filter(p);
            assert(orders.filter(p) =~= kept.push(orders.last()));
            assert(kept.push(orders.last()).drop_last() =~= kept);
        }
    }
}

/// What a leg covers is its own, and a position is covered where neither leg leaves a part of what
/// was filled: where one covers less than was filled, there is a gap.
pub proof fn law_gap_where_a_leg_is_short(c: ExitCoverage)
    ensures
        c.covered(ExitLegType::StopLoss) == c.sl_covered,
        c.covered(ExitLegType::TakeProfit) == c.tp_covered,
        c.filled_qty.spec_minus(c.sl_covered)@ > 0 ==> !c.covers_all(),
        c.filled_qty.spec_minus(c.tp_covered)@ > 0 ==> !c.covers_all(),
        c.filled_qty.spec_minus(c.sl_covered)@ <= 0 && c.filled_qty.spec_minus(c.tp_covered)@ <= 0
            ==> c.covers_all(),
{
    crate::decimal::lemma_zero();
}

} // verus!
