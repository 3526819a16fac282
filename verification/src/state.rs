//! State Manager for per-adapter order and position caching.
//!
//! The State Manager maintains an in-memory cache of open orders and positions
//! for internal use by the Exit Handler and adapter logic. It is NOT used for
//! REST responses - those always query the provider directly.
//!
//! # Key Principles
//!
//! - **Provider is source of truth**: State Manager is cache only
//! - **Used for internal operations**: Exit Handler queries, OCO group correlation
//! - **Sync on connect**: Full state rebuilt from provider on connect/reconnect

use vstd::prelude::*;
use crate::decimal::Decimal;
use crate::id_set::IdSet;
use crate::models::{Order, OrderStatus, Position, PositionSide, Side};
use crate::table::Table;
use crate::text::{opt_text, same, texts};

verus! {

/// Minimal order data for internal cache operations (exit tracking, OCO grouping).
#[derive(Debug)]
pub struct CachedOrder {
    pub order_id: String,
    pub symbol: String,
    pub side: Side,
    pub quantity: Decimal,
    pub filled_quantity: Decimal,
    pub status: OrderStatus,
    pub position_id: Option<String>,
    pub oco_group_id: Option<String>,
}

/// What is cached of an order.
#[verifier::ext_equal]
pub struct CachedOrderView {
    pub order_id: Seq<char>,
    pub symbol: Seq<char>,
    pub side: Side,
    pub quantity: Decimal,
    pub filled_quantity: Decimal,
    pub status: OrderStatus,
    pub position_id: Option<Seq<char>>,
    pub oco_group_id: Option<Seq<char>>,
}

impl View for CachedOrder {
    type V = CachedOrderView;

    open spec fn view(&self) -> CachedOrderView {
        CachedOrderView {
            order_id: self.order_id@,
            symbol: self.symbol@,
            side: self.side,
            quantity: self.quantity,
            filled_quantity: self.filled_quantity,
            status: self.status,
            position_id: opt_text(self.position_id),
            oco_group_id: opt_text(self.oco_group_id),
        }
    }
}

impl Clone for CachedOrder {
    fn clone(&self) -> (copy: CachedOrder)
        ensures
            copy == *self,
    {
        CachedOrder {
            order_id: self.order_id.clone(),
            symbol: self.symbol.clone(),
            side: self.side,
            quantity: self.quantity,
            filled_quantity: self.filled_quantity,
            status: self.status,
            position_id: self.position_id.clone(),
            oco_group_id: self.oco_group_id.clone(),
        }
    }
}

/// Minimal position data for internal cache operations.
#[derive(Debug)]
pub struct CachedPosition {
    pub position_id: String,
    pub symbol: String,
    pub side: PositionSide,
    pub quantity: Decimal,
}

impl Clone for CachedPosition {
    fn clone(&self) -> (copy: CachedPosition)
        ensures
            copy == *self,
    {
        CachedPosition {
            position_id: self.position_id.clone(),
            symbol: self.symbol.clone(),
            side: self.side,
            quantity: self.quantity,
        }
    }
}

/// What is cached of a position.
#[verifier::ext_equal]
pub struct CachedPositionView {
    pub position_id: Seq<char>,
    pub symbol: Seq<char>,
    pub side: PositionSide,
    pub quantity: Decimal,
}

impl View for CachedPosition {
    type V = CachedPositionView;

    open spec fn view(&self) -> CachedPositionView {
        CachedPositionView {
            position_id: self.position_id@,
            symbol: self.symbol@,
            side: self.side,
            quantity: self.quantity,
        }
    }
}

/// Record of the first exit fill in an OCO group, used for double-exit detection.
#[derive(Debug)]
pub struct OcoFillRecord {
    pub first_filled_order_id: String,
    pub first_filled_qty: Decimal,
    pub symbol: String,
    pub side: Side,
}

impl Clone for OcoFillRecord {
    fn clone(&self) -> (copy: OcoFillRecord)
        ensures
            copy == *self,
    {
        OcoFillRecord {
            first_filled_order_id: self.first_filled_order_id.clone(),
            first_filled_qty: self.first_filled_qty,
            symbol: self.symbol.clone(),
            side: self.side,
        }
    }
}

/// What is recorded of the first exit fill in an OCO group.
#[verifier::ext_equal]
pub struct OcoFillView {
    pub first_filled_order_id: Seq<char>,
    pub first_filled_qty: Decimal,
    pub symbol: Seq<char>,
    pub side: Side,
}

impl View for OcoFillRecord {
    type V = OcoFillView;

    open spec fn view(&self) -> OcoFillView {
        OcoFillView {
            first_filled_order_id: self.first_filled_order_id@,
            first_filled_qty: self.first_filled_qty,
            symbol: self.symbol@,
            side: self.side,
        }
    }
}

// ---------------------------------------------------------------------------------------
// Model
// ---------------------------------------------------------------------------------------

/// What the state manager holds.
#[verifier::ext_equal]
pub struct StateView {
    /// The open orders, by order ID.
    pub orders: Map<Seq<char>, CachedOrderView>,
    /// The positions, by position ID.
    pub positions: Map<Seq<char>, CachedPositionView>,
    /// The position that was last reported for a symbol.
    pub position_by_symbol: Map<Seq<char>, Seq<char>>,
    /// The orders of each OCO group.
    pub oco_groups: Map<Seq<char>, Set<Seq<char>>>,
    /// The first exit fill of each OCO group.
    pub oco_fills: Map<Seq<char>, OcoFillView>,
}

/// What is cached of an order.
pub open spec fn cached_order(order: Order) -> CachedOrderView {
    CachedOrderView {
        order_id: order.id@,
        symbol: order.symbol@,
        side: order.side,
        quantity: order.quantity,
        filled_quantity: order.filled_quantity,
        status: order.status,
        position_id: opt_text(order.position_id),
        oco_group_id: opt_text(order.oco_group_id),
    }
}

/// What is cached of a position.
pub open spec fn cached_position(position: Position) -> CachedPositionView {
    CachedPositionView {
        position_id: position.id@,
        symbol: position.symbol@,
        side: position.side,
        quantity: position.quantity,
    }
}

/// The groups with an order in one of them.
pub open spec fn joined(
    groups: Map<Seq<char>, Set<Seq<char>>>,
    group: Seq<char>,
    order: Seq<char>,
) -> Map<Seq<char>, Set<Seq<char>>> {
    let members = if groups.contains_key(group) {
        groups[group]
    } else {
        Set::empty()
    };
    groups.insert(group, members.insert(order))
}

/// The groups without an order in one of them; a group that is left without orders goes.
pub open spec fn left(
    groups: Map<Seq<char>, Set<Seq<char>>>,
    group: Seq<char>,
    order: Seq<char>,
) -> Map<Seq<char>, Set<Seq<char>>> {
    if groups.contains_key(group) {
        let members = groups[group].remove(order);
        if members == Set::<Seq<char>>::empty() {
            groups.remove(group)
        } else {
            groups.insert(group, members)
        }
    } else {
        groups
    }
}

impl StateView {
    /// A state that holds nothing.
    pub open spec fn empty() -> StateView {
        StateView {
            orders: Map::empty(),
            positions: Map::empty(),
            position_by_symbol: Map::empty(),
            oco_groups: Map::empty(),
            oco_fills: Map::empty(),
        }
    }

    /// The group that an order was last known to be in.
    pub open spec fn group_of(self, order_id: Seq<char>) -> Option<Seq<char>> {
        if self.orders.contains_key(order_id) {
            self.orders[order_id].oco_group_id
        } else {
            None
        }
    }

    /// The state with an order inserted or replaced: the order leaves the group that it was
    /// in, unless it stays in it, and joins the one it names.
    pub open spec fn with_order(self, order: Order) -> StateView {
        let id = order.id@;
        let group = opt_text(order.oco_group_id);
        let kept = match self.group_of(id) {
            Some(old_group) => if group == Some(old_group) {
                self.oco_groups
            } else {
                left(self.oco_groups, old_group, id)
            },
            None => self.oco_groups,
        };
        StateView {
            orders: self.orders.insert(id, cached_order(order)),
            oco_groups: match group {
                Some(g) => joined(kept, g, id),
                None => kept,
            },
            ..self
        }
    }

    /// The state without an order, which leaves its group.
    pub open spec fn without_order(self, order_id: Seq<char>) -> StateView {
        StateView {
            orders: self.orders.remove(order_id),
            oco_groups: match self.group_of(order_id) {
                Some(group) => left(self.oco_groups, group, order_id),
                None => self.oco_groups,
            },
            ..self
        }
    }

    /// The state with the fill of an order updated, where the order is known.
    pub open spec fn with_fill(
        self,
        order_id: Seq<char>,
        filled_qty: Decimal,
        status: OrderStatus,
    ) -> StateView {
        if self.orders.contains_key(order_id) {
            StateView {
                orders: self.orders.insert(
                    order_id,
                    CachedOrderView {
                        filled_quantity: filled_qty,
                        status,
                        ..self.orders[order_id]
                    },
                ),
                ..self
            }
        } else {
            self
        }
    }

    /// The symbol index without the entry of a position under a symbol.
    pub open spec fn released(self, symbol: Seq<char>, id: Seq<char>) -> Map<Seq<char>, Seq<char>> {
        if self.position_by_symbol.contains_key(symbol) && self.position_by_symbol[symbol] == id {
            self.position_by_symbol.remove(symbol)
        } else {
            self.position_by_symbol
        }
    }

    /// The state with a position inserted or replaced: its symbol now leads to it, and a
    /// symbol that it no longer has does not.
    pub open spec fn with_position(self, position: Position) -> StateView {
        let id = position.id@;
        let symbols = if self.positions.contains_key(id) && self.positions[id].symbol
            != position.symbol@ {
            self.released(self.positions[id].symbol, id)
        } else {
            self.position_by_symbol
        };
        StateView {
            positions: self.positions.insert(id, cached_position(position)),
            position_by_symbol: symbols.insert(position.symbol@, id),
            ..self
        }
    }

    /// The state without a position; its symbol no longer leads to it.
    pub open spec fn without_position(self, id: Seq<char>) -> StateView {
        if self.positions.contains_key(id) {
            StateView {
                positions: self.positions.remove(id),
                position_by_symbol: self.released(self.positions[id].symbol, id),
                ..self
            }
        } else {
            self
        }
    }

    /// The state with an order put into a group.
    pub open spec fn with_group(self, order_id: Seq<char>, group_id: Seq<char>) -> StateView {
        StateView {
            oco_groups: joined(self.oco_groups, group_id, order_id),
            orders: if self.orders.contains_key(order_id) {
                self.orders.insert(
                    order_id,
                    CachedOrderView { oco_group_id: Some(group_id), ..self.orders[order_id] },
                )
            } else {
                self.orders
            },
            ..self
        }
    }

    /// The state with several orders inserted, one after the other.
    pub open spec fn with_orders(self, orders: Seq<Order>) -> StateView
        decreases orders.len(),
    {
        if orders.len() == 0 {
            self
        } else {
            self.with_orders(orders.drop_last()).with_order(orders.last())
        }
    }

    /// The state with several positions inserted, one after the other.
    pub open spec fn with_positions(self, positions: Seq<Position>) -> StateView
        decreases positions.len(),
    {
        if positions.len() == 0 {
            self
        } else {
            self.with_positions(positions.drop_last()).with_position(positions.last())
        }
    }

    /// The position of a symbol.
    pub open spec fn position_of_symbol(self, symbol: Seq<char>) -> Option<CachedPositionView> {
        if self.position_by_symbol.contains_key(symbol) && self.positions.contains_key(
            self.position_by_symbol[symbol],
        ) {
            Some(self.positions[self.position_by_symbol[symbol]])
        } else {
            None
        }
    }

    /// The indexes agree with what they index: an order is in the group it names, no group is
    /// without orders, and a symbol leads to a position of that symbol.
    pub open spec fn consistent(self) -> bool {
        &&& forall|id: Seq<char>|
            #![trigger self.orders.contains_key(id)]
            self.orders.contains_key(id) ==> (self.orders[id].oco_group_id matches Some(g)
                ==> self.oco_groups.contains_key(g) && self.oco_groups[g].contains(id))
        &&& forall|g: Seq<char>|
            #![trigger self.oco_groups.contains_key(g)]
            self.oco_groups.contains_key(g) ==> self.oco_groups[g] != Set::<Seq<char>>::empty()
        &&& forall|s: Seq<char>|
            #![trigger self.position_by_symbol.contains_key(s)]
            self.position_by_symbol.contains_key(s) ==> self.positions.contains_key(
                self.position_by_symbol[s],
            ) && self.positions[self.position_by_symbol[s]].symbol == s
    }
}

/// Putting an order into a group keeps the groups consistent with the other orders.
proof fn lemma_joined(groups: Map<Seq<char>, Set<Seq<char>>>, group: Seq<char>, order: Seq<char>)
    ensures
        joined(groups, group, order).contains_key(group),
        joined(groups, group, order)[group].contains(order),
        joined(groups, group, order)[group] != Set::<Seq<char>>::empty(),
        forall|g: Seq<char>, x: Seq<char>|
            #![trigger groups[g].contains(x)]
            groups.contains_key(g) && groups[g].contains(x) ==> joined(
                groups,
                group,
                order,
            ).contains_key(g) && joined(groups, group, order)[g].contains(x),
        forall|g: Seq<char>|
            g != group && #[trigger] joined(groups, group, order).contains_key(g)
                ==> groups.contains_key(g) && joined(groups, group, order)[g] == groups[g],
{
    assert(joined(groups, group, order)[group].contains(order));
}

/// An order that leaves a group takes no other order with it.
proof fn lemma_left(groups: Map<Seq<char>, Set<Seq<char>>>, group: Seq<char>, order: Seq<char>)
    ensures
        forall|g: Seq<char>, x: Seq<char>|
            #![trigger groups[g].contains(x)]
            groups.contains_key(g) && groups[g].contains(x) && x != order ==> left(
                groups,
                group,
                order,
            ).contains_key(g) && left(groups, group, order)[g].contains(x),
        forall|g: Seq<char>|
            g != group && #[trigger] left(groups, group, order).contains_key(g)
                ==> groups.contains_key(g) && left(groups, group, order)[g] == groups[g],
        left(groups, group, order).contains_key(group) ==> left(groups, group, order)[group]
            != Set::<Seq<char>>::empty() || !groups.contains_key(group),
{
    assert forall|g: Seq<char>, x: Seq<char>|
        #![trigger groups[g].contains(x)]
        groups.contains_key(g) && groups[g].contains(x) && x != order implies left(
        groups,
        group,
        order,
    ).contains_key(g) && left(groups, group, order)[g].contains(x) by {
        if g == group {
            assert(groups[group].remove(order).contains(x));
        }
    }
}

/// Every operation on the state keeps its indexes consistent with what they index.
pub proof fn law_state_stays_consistent(
    s: StateView,
    order: Order,
    position: Position,
    id: Seq<char>,
    group: Seq<char>,
    qty: Decimal,
    status: OrderStatus,
)
    requires
        s.consistent(),
    ensures
        s.with_order(order).consistent(),
        s.without_order(id).consistent(),
        s.with_fill(id, qty, status).consistent(),
        s.with_group(id, group).consistent(),
        s.with_position(position).consistent(),
        s.without_position(id).consistent(),
{
    lemma_with_order_consistent(s, order);
    lemma_without_order_consistent(s, id);
    lemma_joined(s.oco_groups, group, id);
}

proof fn lemma_with_order_consistent(s: StateView, order: Order)
    requires
        s.consistent(),
    ensures
        s.with_order(order).consistent(),
{
    let id = order.id@;
    let group = opt_text(order.oco_group_id);
    let t = s.with_order(order);
    let kept = match s.group_of(id) {
        Some(old_group) => if group == Some(old_group) {
            s.oco_groups
        } else {
            left(s.oco_groups, old_group, id)
        },
        None => s.oco_groups,
    };
    if let Some(old_group) = s.group_of(id) {
        lemma_left(s.oco_groups, old_group, id);
    }
    assert(forall|g: Seq<char>, x: Seq<char>|
        #![trigger s.oco_groups[g].contains(x)]
        s.oco_groups.contains_key(g) && s.oco_groups[g].contains(x) && x != id
            ==> kept.contains_key(g) && kept[g].contains(x));
    assert(forall|g: Seq<char>| #[trigger]
        kept.contains_key(g) ==> kept[g] != Set::<Seq<char>>::empty());
    if let Some(g) = group {
        lemma_joined(kept, g, id);
    }
    assert forall|x: Seq<char>|
        #![trigger t.orders.contains_key(x)]
        t.orders.contains_key(x) implies (t.orders[x].oco_group_id matches Some(g)
        ==> t.oco_groups.contains_key(g) && t.oco_groups[g].contains(x)) by {
        if x != id {
            assert(s.orders.contains_key(x));
            if let Some(g) = s.orders[x].oco_group_id {
                assert(s.oco_groups[g].contains(x));
                assert(kept[g].contains(x));
            }
        }
    }
}

proof fn lemma_without_order_consistent(s: StateView, id: Seq<char>)
    requires
        s.consistent(),
    ensures
        s.without_order(id).consistent(),
{
    let t = s.without_order(id);
    if let Some(group) = s.group_of(id) {
        lemma_left(s.oco_groups, group, id);
    }
    assert forall|x: Seq<char>|
        #![trigger t.orders.contains_key(x)]
        t.orders.contains_key(x) implies (t.orders[x].oco_group_id matches Some(g)
        ==> t.oco_groups.contains_key(g) && t.oco_groups[g].contains(x)) by {
        assert(s.orders.contains_key(x));
        if let Some(g) = s.orders[x].oco_group_id {
            assert(s.oco_groups[g].contains(x));
        }
    }
}

/// In a consistent state, a symbol that is known leads to a position of that symbol.
pub proof fn law_symbol_leads_to_position(s: StateView, symbol: Seq<char>)
    requires
        s.consistent(),
    ensures
        s.position_by_symbol.contains_key(symbol) <==> s.position_of_symbol(symbol) is Some,
        s.position_of_symbol(symbol) matches Some(p) ==> p.symbol == symbol,
{
}

/// Removing an order that was just inserted leaves no trace of it in its group.
pub proof fn law_removed_order_leaves_its_group(s: StateView, order: Order)
    ensures
        !s.with_order(order).without_order(order.id@).orders.contains_key(order.id@),
        opt_text(order.oco_group_id) matches Some(g) ==> {
            let after = s.with_order(order).without_order(order.id@).oco_groups;
            after.contains_key(g) ==> !after[g].contains(order.id@)
        },
{
}

/// What was last told of an order is what is read of it, whatever is told of others; telling it
/// twice is telling it once.
pub proof fn law_order_is_read_back(s: StateView, order: Order, other: Seq<char>)
    requires
        s.consistent(),
    ensures
        s.with_order(order).orders.contains_key(order.id@),
        s.with_order(order).orders[order.id@] == cached_order(order),
        other != order.id@ ==> s.with_order(order).orders.contains_key(other)
            == s.orders.contains_key(other) && s.with_order(order).orders[other] == s.orders[other],
        s.with_order(order).with_order(order) == s.with_order(order),
{
    let once = s.with_order(order);
    lemma_with_order_consistent(s, order);
    assert(once.with_order(order).orders =~= once.orders);
    if let Some(g) = opt_text(order.oco_group_id) {
        assert(once.oco_groups[g].insert(order.id@) =~= once.oco_groups[g]);
    }
    assert(once.with_order(order).oco_groups =~= once.oco_groups);
}

/// A symbol leads to the position that was last told of in it, until that position is removed.
pub proof fn law_position_is_read_back(s: StateView, position: Position)
    ensures
        s.with_position(position).position_of_symbol(position.symbol@) == Some(
            cached_position(position),
        ),
        s.with_position(position).without_position(position.id@).position_of_symbol(
            position.symbol@,
        ) is None,
{
}

// ---------------------------------------------------------------------------------------
// State manager
// ---------------------------------------------------------------------------------------

/// Cache for Exit Handler and adapter operations. Provider is always source of truth.
pub struct StateManager {
    orders: Table<CachedOrder>,
    positions: Table<CachedPosition>,
    /// For netting mode - one position per symbol
    position_by_symbol: Table<String>,
    oco_groups: Table<IdSet>,
    /// Tracks first exit fill per OCO group for double-exit detection.
    oco_fills: Table<OcoFillRecord>,
}

impl View for StateManager {
    type V = StateView;

    closed spec fn view(&self) -> StateView {
        StateView {
            orders: self.orders@.map_values(|o: CachedOrder| o@),
            positions: self.positions@.map_values(|p: CachedPosition| p@),
            position_by_symbol: self.position_by_symbol@.map_values(|s: String| s@),
            oco_groups: self.oco_groups@.map_values(|g: IdSet| g@),
            oco_fills: self.oco_fills@.map_values(|f: OcoFillRecord| f@),
        }
    }
}

impl StateManager {
    /// The tables are intact, and the state is consistent.
    pub closed spec fn wf(self) -> bool {
        &&& self.orders.wf()
        &&& self.positions.wf()
        &&& self.position_by_symbol.wf()
        &&& self.oco_groups.wf()
        &&& self.oco_fills.wf()
        &&& forall|g: Seq<char>| #[trigger] self.oco_groups@.contains_key(g) ==> self.oco_groups@[g].wf()
        &&& self@.consistent()
    }

    /// The indexes of a state manager that is intact agree with what they index.
    pub proof fn law_state_is_consistent(self)
        requires
            self.wf(),
        ensures
            self@.consistent(),
    {
    }

    /// A state manager that holds nothing.
    pub fn new() -> (s: StateManager)
        ensures
            s.wf(),
            s@ == StateView::empty(),
    {
        let s = StateManager {
            orders: Table::new(),
            positions: Table::new(),
            position_by_symbol: Table::new(),
            oco_groups: Table::new(),
            oco_fills: Table::new(),
        };
        assert(s@ =~= StateView::empty());
        s
    }

    /// Takes an order out of a group; a group that is left without orders goes.
    fn leave_group(groups: &mut Table<IdSet>, group_id: &str, order_id: &str)
        requires
            old(groups).wf(),
            forall|g: Seq<char>| #[trigger] old(groups)@.contains_key(g) ==> old(groups)@[g].wf(),
        ensures
            final(groups).wf(),
            forall|g: Seq<char>| #[trigger]
                final(groups)@.contains_key(g) ==> final(groups)@[g].wf(),
            final(groups)@.map_values(|g: IdSet| g@) == left(
                old(groups)@.map_values(|g: IdSet| g@),
                group_id@,
                order_id@,
            ),
    {
        let ghost before = groups@;
        match groups.remove(group_id) {
            Some(members) => {
                let mut members = members;
                members.remove(order_id);
                if !members.is_empty() {
                    let _ = groups.insert(group_id.to_owned(), members);
                }
            },
            None => {},
        }
        proof {
            let f = |g: IdSet| g@;
            assert(groups@.map_values(f) =~= left(before.map_values(f), group_id@, order_id@));
        }
    }

    /// Puts an order into a group, which is made where it does not exist.
    fn join_group(groups: &mut Table<IdSet>, group_id: &str, order_id: &str)
        requires
            old(groups).wf(),
            forall|g: Seq<char>| #[trigger] old(groups)@.contains_key(g) ==> old(groups)@[g].wf(),
        ensures
            final(groups).wf(),
            forall|g: Seq<char>| #[trigger]
                final(groups)@.contains_key(g) ==> final(groups)@[g].wf(),
            final(groups)@.map_values(|g: IdSet| g@) == joined(
                old(groups)@.map_values(|g: IdSet| g@),
                group_id@,
                order_id@,
            ),
    {
        let ghost before = groups@;
        let mut members = match groups.remove(group_id) {
            Some(members) => members,
            None => IdSet::new(),
        };
        members.insert(order_id);
        let _ = groups.insert(group_id.to_owned(), members);
        proof {
            let f = |g: IdSet| g@;
            assert(groups@.map_values(f) =~= joined(before.map_values(f), group_id@, order_id@));
        }
    }

    /// Clear and repopulate from provider data (on connect/reconnect).
    ///
    /// This performs a full sync, replacing all cached state with fresh data
    /// from the provider. Exit order tracking is NOT preserved - that's handled
    /// separately by the Exit Handler. OCO groups are also cleared since they
    /// are client-side concepts not stored by providers.
    pub fn sync_from_provider(&mut self, orders: Vec<Order>, positions: Vec<Position>)
        requires
            old(self).wf(),
        ensures
            final(self).wf(),
            final(self)@ == StateView::empty().with_orders(orders@).with_positions(positions@),
    {
        self.orders.clear();
        self.positions.clear();
        self.position_by_symbol.clear();
        self.oco_groups.clear();
        self.oco_fills.clear();
        assert(self@ =~= StateView::empty());

        let mut i: usize = 0;
        while i < orders.len()
            invariant
                i <= orders.len(),
                self.wf(),
                self@ == StateView::empty().with_orders(orders@.take(i as int)),
            decreases orders.len() - i,
        {
            self.upsert_order(&orders[i]);
            proof {
                let longer = orders@.take(i + 1);
                assert(longer.drop_last() =~= orders@.take(i as int));
            }
            i = i + 1;
        }
        assert(orders@.take(i as int) =~= orders@);

        let mut k: usize = 0;
        while k < positions.len()
            invariant
                k <= positions.len(),
                self.wf(),
                self@ == StateView::empty().with_orders(orders@).with_positions(
                    positions@.take(k as int),
                ),
            decreases positions.len() - k,
        {
            self.upsert_position(&positions[k]);
            proof {
                let longer = positions@.take(k + 1);
                assert(longer.drop_last() =~= positions@.take(k as int));
            }
            k = k + 1;
        }
        assert(positions@.take(k as int) =~= positions@);
    }

    /// Insert or update an order.
    ///
    /// If the order's `oco_group_id` has changed from a previous upsert,
    /// the old group index will be cleaned up automatically.
    pub fn upsert_order(&mut self, order: &Order)
        requires
            old(self).wf(),
        ensures
            final(self).wf(),
            final(self)@ == old(self)@.with_order(*order),
    {
        let ghost before = self@;
        let cached = CachedOrder {
            order_id: order.id.clone(),
            symbol: order.symbol.clone(),
            side: order.side,
            quantity: order.quantity,
            filled_quantity: order.filled_quantity,
            status: order.status,
            position_id: order.position_id.clone(),
            oco_group_id: order.oco_group_id.clone(),
        };
        let old_cached = self.orders.insert(order.id.clone(), cached);
        if let Some(cached_before) = &old_cached {
            if let Some(old_group_id) = &cached_before.oco_group_id {
                let stays = match &order.oco_group_id {
                    Some(group_id) => same(group_id.as_str(), old_group_id.as_str()),
                    None => false,
                };
                if !stays {
                    StateManager::leave_group(
                        &mut self.oco_groups,
                        old_group_id.as_str(),
                        order.id.as_str(),
                    );
                }
            }
        }
        if let Some(group_id) = &order.oco_group_id {
            StateManager::join_group(&mut self.oco_groups, group_id.as_str(), order.id.as_str());
        }
        proof {
            assert(self@.orders =~= before.with_order(*order).orders);
            assert(self@ =~= before.with_order(*order));
            lemma_with_order_consistent(before, *order);
        }
    }

    /// Update order on fill event.
    ///
    /// Note: Does not validate that `filled_qty` <= quantity.
    /// Provider is source of truth for all quantities.
    pub fn update_order_fill(&mut self, order_id: &str, filled_qty: Decimal, status: OrderStatus)
        -> (known: bool)
        requires
            old(self).wf(),
        ensures
            final(self).wf(),
            known == old(self)@.orders.contains_key(order_id@),
            final(self)@ == old(self)@.with_fill(order_id@, filled_qty, status),
    {
        let ghost before = self@;
        let updated = match self.orders.get(order_id) {
            Some(entry) => {
                let mut copy = entry.clone();
                copy.filled_quantity = filled_qty;
                copy.status = status;
                Some(copy)
            },
            None => None,
        };
        match updated {
            Some(entry) => {
                let _ = self.orders.insert(order_id.to_owned(), entry);
                proof {
                    assert(self@.orders =~= before.with_fill(
                        order_id@,
                        filled_qty,
                        status,
                    ).orders);
                    assert(self@ =~= before.with_fill(order_id@, filled_qty, status));
                }
                true
            },
            None => false,
        }
    }

    /// Remove order (cancelled, filled, expired).
    pub fn remove_order(&mut self, order_id: &str) -> (known: bool)
        requires
            old(self).wf(),
        ensures
            final(self).wf(),
            known == old(self)@.orders.contains_key(order_id@),
            final(self)@ == old(self)@.without_order(order_id@),
    {
        let ghost before = self@;
        match self.orders.remove(order_id) {
            Some(order) => {
                if let Some(group_id) = &order.oco_group_id {
                    StateManager::leave_group(&mut self.oco_groups, group_id.as_str(), order_id);
                }
                proof {
                    assert(self@.orders =~= before.without_order(order_id@).orders);
                    assert(self@ =~= before.without_order(order_id@));
                    lemma_without_order_consistent(before, order_id@);
                }
                true
            },
            None => {
                proof {
                    assert(self@.orders =~= before.without_order(order_id@).orders);
                    assert(self@ =~= before.without_order(order_id@));
                }
                false
            },
        }
    }

    /// What is cached of an order.
    pub fn get_order(&self, order_id: &str) -> (order: Option<CachedOrder>)
        requires
            self.wf(),
        ensures
            match order {
                Some(o) => self@.orders.contains_key(order_id@) && o@ == self@.orders[order_id@],
                None => !self@.orders.contains_key(order_id@),
            },
    {
        match self.orders.get(order_id) {
            Some(o) => Some(o.clone()),
            None => None,
        }
    }

    /// The number of orders.
    pub fn order_count(&self) -> (n: usize)
        requires
            self.wf(),
        ensures
            n == self@.orders.len(),
    {
        assert(self@.orders.dom() =~= self.orders@.dom());
        self.orders.len()
    }

    /// Get all tracked order IDs.
    ///
    /// Used by reconnect reconciliation to check each order against the provider.
    pub fn get_all_order_ids(&self) -> (ids: Vec<String>)
        requires
            self.wf(),
        ensures
            texts(ids@).no_duplicates(),
            texts(ids@).to_set() == self@.orders.dom(),
    {
        let n: usize = self.orders.len();
        let mut ids: Vec<String> = Vec::new();
        let mut i: usize = 0;
        while i < n
            invariant
                i <= n,
                self.wf(),
                n == self.orders.keys().len(),
                texts(ids@) == self.orders.keys().take(i as int),
            decreases n - i,
        {
            let ghost before = texts(ids@);
            let id = self.orders.key_at(i).clone();
            ids.push(id);
            proof {
                assert(texts(ids@) =~= before.push(id@));
                assert(texts(ids@) =~= self.orders.keys().take(i + 1));
            }
            i = i + 1;
        }
        proof {
            self.orders.lemma_rows();
            assert(self.orders.keys().take(n as int) =~= self.orders.keys());
            assert(texts(ids@).to_set() =~= self@.orders.dom());
        }
        ids
    }

    /// Insert or update a position.
    pub fn upsert_position(&mut self, position: &Position)
        requires
            old(self).wf(),
        ensures
            final(self).wf(),
            final(self)@ == old(self)@.with_position(*position),
    {
        let ghost before = self@;
        let cached = CachedPosition {
            position_id: position.id.clone(),
            symbol: position.symbol.clone(),
            side: position.side,
            quantity: position.quantity,
        };
        let old_cached = self.positions.insert(position.id.clone(), cached);
        if let Some(cached_before) = &old_cached {
            if !same(cached_before.symbol.as_str(), position.symbol.as_str()) {
                self.release_symbol(cached_before.symbol.as_str(), position.id.as_str());
            }
        }
        let _ = self.position_by_symbol.insert(position.symbol.clone(), position.id.clone());
        proof {
            assert(self@.positions =~= before.with_position(*position).positions);
            assert(self@.position_by_symbol =~= before.with_position(
                *position,
            ).position_by_symbol);
            assert(self@ =~= before.with_position(*position));
        }
    }

    /// Takes a symbol out of the symbol index, where it leads to a position.
    fn release_symbol(&mut self, symbol: &str, position_id: &str)
        requires
            old(self).position_by_symbol.wf(),
        ensures
            *final(self) == (StateManager {
                position_by_symbol: final(self).position_by_symbol,
                ..*old(self)
            }),
            final(self).position_by_symbol.wf(),
            final(self)@.position_by_symbol == old(self)@.released(symbol@, position_id@),
    {
        let ghost before = self@;
        let owned = match self.position_by_symbol.get(symbol) {
            Some(owner) => same(owner.as_str(), position_id),
            None => false,
        };
        if owned {
            let _ = self.position_by_symbol.remove(symbol);
        }
        assert(self@.position_by_symbol =~= before.released(symbol@, position_id@));
    }

    /// Remove position (closed).
    pub fn remove_position(&mut self, position_id: &str) -> (known: bool)
        requires
            old(self).wf(),
        ensures
            final(self).wf(),
            known == old(self)@.positions.contains_key(position_id@),
            final(self)@ == old(self)@.without_position(position_id@),
    {
        let ghost before = self@;
        match self.positions.remove(position_id) {
            Some(position) => {
                self.release_symbol(position.symbol.as_str(), position_id);
                proof {
                    assert(self@.positions =~= before.without_position(position_id@).positions);
                    assert(self@.position_by_symbol =~= before.without_position(
                        position_id@,
                    ).position_by_symbol);
                    assert(self@ =~= before.without_position(position_id@));
                }
                true
            },
            None => {
                assert(self@.positions =~= before.positions);
                assert(self@ =~= before);
                false
            },
        }
    }

    /// What is cached of a position.
    pub fn get_position(&self, position_id: &str) -> (position: Option<CachedPosition>)
        requires
            self.wf(),
        ensures
            match position {
                Some(p) => self@.positions.contains_key(position_id@) && p@
                    == self@.positions[position_id@],
                None => !self@.positions.contains_key(position_id@),
            },
    {
        match self.positions.get(position_id) {
            Some(p) => Some(p.clone()),
            None => None,
        }
    }

    /// For netting mode - one position per symbol
    pub fn get_position_by_symbol(&self, symbol: &str) -> (position: Option<CachedPosition>)
        requires
            self.wf(),
        ensures
            match position {
                Some(p) => self@.position_of_symbol(symbol@) == Some(p@),
                None => self@.position_of_symbol(symbol@) is None,
            },
    {
        match self.position_by_symbol.get(symbol) {
            Some(id) => self.get_position(id.as_str()),
            None => None,
        }
    }

    /// Whether a symbol leads to a position.
    pub fn has_position_by_symbol(&self, symbol: &str) -> (known: bool)
        requires
            self.wf(),
        ensures
            known == self@.position_by_symbol.contains_key(symbol@),
            known == (self@.position_of_symbol(symbol@) is Some),
    {
        self.position_by_symbol.contains_key(symbol)
    }

    /// The number of positions.
    pub fn position_count(&self) -> (n: usize)
        requires
            self.wf(),
        ensures
            n == self@.positions.len(),
    {
        assert(self@.positions.dom() =~= self.positions@.dom());
        self.positions.len()
    }

    /// Add an order to an OCO group.
    ///
    /// Called when creating orders with `oco_group_id` to register them
    /// in the group index. Orders in the same group will be cancelled
    /// when one fills completely.
    pub fn add_to_oco_group(&mut self, order_id: &str, group_id: &str)
        requires
            old(self).wf(),
        ensures
            final(self).wf(),
            final(self)@ == old(self)@.with_group(order_id@, group_id@),
    {
        let ghost before = self@;
        StateManager::join_group(&mut self.oco_groups, group_id, order_id);
        let updated = match self.orders.get(order_id) {
            Some(entry) => {
                let mut copy = entry.clone();
                copy.oco_group_id = Some(group_id.to_owned());
                Some(copy)
            },
            None => None,
        };
        match updated {
            Some(entry) => {
                let _ = self.orders.insert(order_id.to_owned(), entry);
            },
            None => {},
        }
        proof {
            lemma_joined(before.oco_groups, group_id@, order_id@);
            assert(self@.orders =~= before.with_group(order_id@, group_id@).orders);
            assert(self@ =~= before.with_group(order_id@, group_id@));
        }
    }

    /// Get all sibling order IDs in an OCO group, excluding a specific order.
    ///
    /// Returns the IDs of all other orders in the same OCO group.
    /// Used when an order fills to find siblings that need cancellation.
    pub fn get_oco_siblings(&self, group_id: &str, exclude_order_id: &str) -> (ids: Vec<String>)
        requires
            self.wf(),
        ensures
            texts(ids@).no_duplicates(),
            texts(ids@).to_set() == (if self@.oco_groups.contains_key(group_id@) {
                self@.oco_groups[group_id@].remove(exclude_order_id@)
            } else {
                Set::<Seq<char>>::empty()
            }),
    {
        match self.oco_groups.get(group_id) {
            Some(members) => members.without(exclude_order_id),
            None => {
                let ids: Vec<String> = Vec::new();
                assert(texts(ids@).to_set() =~= Set::<Seq<char>>::empty());
                ids
            },
        }
    }

    /// The group of an order: the one that its cached order names, or else one in which the
    /// order is listed although it is not in the orders yet.
    pub fn get_oco_group_id(&self, order_id: &str) -> (group: Option<String>)
        requires
            self.wf(),
        ensures
            match group {
                Some(g) => self@.group_of(order_id@) == Some(g@) || (self@.group_of(
                    order_id@,
                ) is None && self@.oco_groups.contains_key(g@) && self@.oco_groups[g@].contains(
                    order_id@,
                )),
                None => self@.group_of(order_id@) is None && forall|g: Seq<char>| #[trigger]
                    self@.oco_groups.contains_key(g) ==> !self@.oco_groups[g].contains(order_id@),
            },
    {
        if let Some(order) = self.orders.get(order_id) {
            if let Some(group_id) = &order.oco_group_id {
                return Some(group_id.clone());
            }
        }
        let n: usize = self.oco_groups.len();
        let mut i: usize = 0;
        while i < n
            invariant
                i <= n,
                self.wf(),
                n == self.oco_groups.keys().len(),
                self@.group_of(order_id@) is None,
                forall|j: int|
                    0 <= j < i ==> !self.oco_groups@[#[trigger] self.oco_groups.keys()[j]]@.contains(
                        order_id@,
                    ),
            decreases n - i,
        {
            if self.oco_groups.value_at(i).contains(order_id) {
                return Some(self.oco_groups.key_at(i).clone());
            }
            i = i + 1;
        }
        proof {
            self.oco_groups.lemma_rows();
            assert forall|g: Seq<char>| #[trigger] self@.oco_groups.contains_key(g) implies
                !self@.oco_groups[g].contains(order_id@) by {
                assert(self.oco_groups@.contains_key(g));
                assert(self.oco_groups.keys().contains(g));
                let j = choose|j: int|
                    0 <= j < self.oco_groups.keys().len() && self.oco_groups.keys()[j] == g;
                assert(self.oco_groups.keys()[j] == g);
            }
        }
        None
    }

    /// Whether the cached order names a group.
    pub fn is_in_oco_group(&self, order_id: &str) -> (grouped: bool)
        requires
            self.wf(),
        ensures
            grouped == (self@.group_of(order_id@) is Some),
    {
        match self.orders.get(order_id) {
            Some(order) => order.oco_group_id.is_some(),
            None => false,
        }
    }

    /// Record an OCO fill for double-exit detection.
    ///
    /// Returns `None` if this is the first fill for the group (normal case).
    /// Returns `Some(previous_record)` if a fill was already recorded,
    /// indicating a double-exit has occurred.
    pub fn record_oco_fill(
        &mut self,
        group_id: &str,
        order_id: &str,
        filled_qty: Decimal,
        symbol: &str,
        side: Side,
    ) -> (previous: Option<OcoFillRecord>)
        requires
            old(self).wf(),
        ensures
            final(self).wf(),
            match previous {
                Some(first) => old(self)@.oco_fills.contains_key(group_id@) && first@
                    == old(self)@.oco_fills[group_id@] && final(self)@ == old(self)@,
                None => !old(self)@.oco_fills.contains_key(group_id@) && final(self)@ == (
                StateView {
                    oco_fills: old(self)@.oco_fills.insert(
                        group_id@,
                        OcoFillView {
                            first_filled_order_id: order_id@,
                            first_filled_qty: filled_qty,
                            symbol: symbol@,
                            side,
                        },
                    ),
                    ..old(self)@
                }),
            },
    {
        let ghost before = self@;
        if let Some(first) = self.oco_fills.get(group_id) {
            return Some(first.clone());
        }
        let record = OcoFillRecord {
            first_filled_order_id: order_id.to_owned(),
            first_filled_qty: filled_qty,
            symbol: symbol.to_owned(),
            side,
        };
        let ghost noted = record@;
        let _ = self.oco_fills.insert(group_id.to_owned(), record);
        assert(self@.oco_fills =~= before.oco_fills.insert(group_id@, noted));
        None
    }

    /// Clear OCO fill tracking for a group (cleanup after resolution).
    pub fn clear_oco_fill(&mut self, group_id: &str)
        requires
            old(self).wf(),
        ensures
            final(self).wf(),
            final(self)@ == (StateView {
                oco_fills: old(self)@.oco_fills.remove(group_id@),
                ..old(self)@
            }),
    {
        let ghost before = self@;
        let _ = self.oco_fills.remove(group_id);
        assert(self@.oco_fills =~= before.oco_fills.remove(group_id@));
    }
}

impl Default for StateManager {
    fn default() -> (s: StateManager)
        ensures
            s.wf(),
            s@ == StateView::empty(),
    {
        StateManager::new()
    }
}

// ---------------------------------------------------------------------------------------
// Laws of groups and of what is synced
// ---------------------------------------------------------------------------------------

/// An order that joins a group is one of its members, and one that leaves it is not; no other
/// member comes or goes, and no other group is touched.
pub proof fn law_members_come_and_go(
    groups: Map<Seq<char>, Set<Seq<char>>>,
    group: Seq<char>,
    order: Seq<char>,
    g: Seq<char>,
    id: Seq<char>,
)
    ensures
        ({
            let was = groups.contains_key(g) && groups[g].contains(id);
            let joins = joined(groups, group, order);
            let leaves = left(groups, group, order);
            &&& joins.contains_key(g) && joins[g].contains(id) <==> was || (g == group && id == order)
            &&& leaves.contains_key(g) && leaves[g].contains(id) <==> was && !(g == group && id
                == order)
            &&& joins.contains_key(group)
            &&& leaves.contains_key(g) ==> groups.contains_key(g)
        }),
{
    let members = groups[group].remove(order);
    if groups.contains_key(group) && g == group && id != order {
        assert(members.contains(id) == groups[group].contains(id));
    }
}

/// An order that is put into a group is a member of it and is known to be in it; what else is
/// cached of it, and every other order, stays.
pub proof fn law_order_is_put_into_a_group(
    s: StateView,
    order_id: Seq<char>,
    group_id: Seq<char>,
    other: Seq<char>,
)
    ensures
        ({
            let after = s.with_group(order_id, group_id);
            &&& after.oco_groups.contains_key(group_id)
            &&& after.oco_groups[group_id].contains(order_id)
            &&& s.orders.contains_key(order_id) ==> after.group_of(order_id) == Some(group_id)
                && after.orders[order_id].status == s.orders[order_id].status
                && after.orders[order_id].symbol == s.orders[order_id].symbol
                && after.orders[order_id].filled_quantity == s.orders[order_id].filled_quantity
            &&& after.orders.contains_key(other) == s.orders.contains_key(other)
            &&& other != order_id && s.orders.contains_key(other) ==> after.orders[other]
                == s.orders[other]
            &&& after.positions == s.positions
            &&& after.oco_fills == s.oco_fills
        }),
{
}

/// What is told of several orders one after the other is cached as the last of them was told.
pub proof fn law_synced_orders_are_cached(s: StateView, orders: Seq<Order>, i: int)
    requires
        0 <= i < orders.len(),
        forall|j: int| i < j < orders.len() ==> (#[trigger] orders[j]).id@ != orders[i].id@,
    ensures
        ({
            let after = s.with_orders(orders);
            let id = orders[i].id@;
            &&& after.orders.contains_key(id)
            &&& after.orders[id].order_id == id
            &&& after.orders[id].status == orders[i].status
            &&& after.orders[id].symbol == orders[i].symbol@
            &&& after.orders[id].side == orders[i].side
            &&& after.orders[id].quantity == orders[i].quantity
            &&& after.orders[id].filled_quantity == orders[i].filled_quantity
            &&& after.orders[id].oco_group_id == opt_text(orders[i].oco_group_id)
            &&& after.orders[id].position_id == opt_text(orders[i].position_id)
        }),
    decreases orders.len(),
{
    let rest = orders.drop_last();
    if i < rest.len() {
        assert forall|j: int| i < j < rest.len() implies (#[trigger] rest[j]).id@ != rest[i].id@ by {
            assert(orders[j].id@ != orders[i].id@);
        }
        law_synced_orders_are_cached(s, rest, i);
        assert(orders[orders.len() - 1].id@ != orders[i].id@);
    }
}

/// No order is cached that was neither told of nor cached before, and one that is not told of stays
/// as it was; positions are not touched.
pub proof fn law_only_told_orders_are_synced(s: StateView, orders: Seq<Order>, id: Seq<char>)
    ensures
        ({
            let after = s.with_orders(orders);
            &&& (forall|i: int| 0 <= i < orders.len() ==> (#[trigger] orders[i]).id@ != id)
                ==> after.orders.contains_key(id) == s.orders.contains_key(id)
                && after.orders[id] == s.orders[id]
            &&& after.positions == s.positions
            &&& after.position_by_symbol == s.position_by_symbol
            &&& after.oco_fills == s.oco_fills
        }),
    decreases orders.len(),
{
    if orders.len() > 0 {
        let rest = orders.drop_last();
        law_only_told_orders_are_synced(s, rest, id);
        if forall|i: int| 0 <= i < orders.len() ==> (#[trigger] orders[i]).id@ != id {
            assert forall|i: int| 0 <= i < rest.len() implies (#[trigger] rest[i]).id@ != id by {
                assert(orders[i].id@ != id);
            }
            assert(orders[orders.len() - 1].id@ != id);
        }
    }
}

/// What is told of several positions one after the other is cached as the last of them was told.
pub proof fn law_synced_positions_are_cached(s: StateView, positions: Seq<Position>, i: int)
    requires
        0 <= i < positions.len(),
        forall|j: int| i < j < positions.len() ==> (#[trigger] positions[j]).id@ != positions[i].id@,
    ensures
        ({
            let after = s.with_positions(positions);
            let id = positions[i].id@;
            &&& after.positions.contains_key(id)
            &&& after.positions[id].position_id == id
            &&& after.positions[id].symbol == positions[i].symbol@
            &&& after.positions[id].side == positions[i].side
            &&& after.positions[id].quantity == positions[i].quantity
        }),
    decreases positions.len(),
{
    let rest = positions.drop_last();
    if i < rest.len() {
        assert forall|j: int| i < j < rest.len() implies (#[trigger] rest[j]).id@ != rest[i].id@ by {
            assert(positions[j].id@ != positions[i].id@);
        }
        law_synced_positions_are_cached(s, rest, i);
        assert(positions[positions.len() - 1].id@ != positions[i].id@);
    }
}

/// No position is cached that was neither told of nor cached before, and one that is not told of stays
/// as it was; orders are not touched.
pub proof fn law_only_told_positions_are_synced(s: StateView, positions: Seq<Position>, id: Seq<char>)
    ensures
        ({
            let after = s.with_positions(positions);
            &&& (forall|i: int| 0 <= i < positions.len() ==> (#[trigger] positions[i]).id@ != id)
                ==> after.positions.contains_key(id) == s.positions.contains_key(id)
                && after.positions[id] == s.positions[id]
            &&& after.orders == s.orders
            &&& after.oco_groups == s.oco_groups
            &&& after.oco_fills == s.oco_fills
        }),
    decreases positions.len(),
{
    if positions.len() > 0 {
        let rest = positions.drop_last();
        law_only_told_positions_are_synced(s, rest, id);
        if forall|i: int| 0 <= i < positions.len() ==> (#[trigger] positions[i]).id@ != id {
            assert forall|i: int| 0 <= i < rest.len() implies (#[trigger] rest[i]).id@ != id by {
                assert(positions[i].id@ != id);
            }
            assert(positions[positions.len() - 1].id@ != id);
        }
    }
}

/// A state that holds nothing has neither orders nor positions, nor groups, nor recorded exits.
pub proof fn law_empty_state_holds_nothing(id: Seq<char>)
    ensures
        !StateView::empty().orders.contains_key(id),
        !StateView::empty().positions.contains_key(id),
        StateView::empty().position_of_symbol(id) is None,
        !StateView::empty().oco_groups.contains_key(id),
        !StateView::empty().oco_fills.contains_key(id),
{
}

} // verus!
