//! Per-adapter Exit Handler for stop-loss and take-profit orders.
//!
//! The Exit Handler manages pending exit orders (SL/TP) that are placed progressively
//! as the primary order fills. This component is instantiated per-adapter, allowing
//! each provider to have its own exit order state.
//!
//! The handler decides; whoever owns it talks to the provider and reports back what the
//! provider answered.

use vstd::prelude::*;
use std::time::Instant;
use crate::decimal::Decimal;
use crate::error::{GatewayError, GatewayErrorView};
use crate::failure_window::{BreakerView, COOLDOWN_MESSAGE};
use crate::models::{OrderRequest, TradingPlatform};
use crate::random::{is_hyphenated_uuid, new_uuid};
use crate::table::Table;
use crate::text::{
    copy_list, digits, has_prefix, join2, join3, list_contains, number_text, opt_text, starts_with,
    texts,
};
use crate::time::{instant_now, nanos_between, signed_span};
use super::circuit_breaker::{CircuitState, ExitOrderCircuitBreaker};
use super::types::{
    ActualOrder, Creation, ExitBackupRegistration, ExitEntry, ExitEntryInfo, ExitEntryParams, ExitEntryStatus,
    ExitEntryStatusInfo, ExitEntryView, ExitHandlerConfig, ExitLegType, FailedExitInfo,
    FailedExitView, RegisteredExitLegs, StatusView, law_placeholder_id_round_trip, opposite_side,
    placeholder_of, spec_opposite,
};

verus! {

// ---------------------------------------------------------------------------------------
// Model
// ---------------------------------------------------------------------------------------

/// What an exit handler holds.
#[verifier::ext_equal]
pub struct HandlerView {
    /// The exit entries, by placeholder ID.
    pub entries: Map<Seq<char>, ExitEntryView>,
    /// The placeholder IDs of each primary order.
    pub by_primary: Map<Seq<char>, Seq<Seq<char>>>,
    /// The configuration.
    pub config: ExitHandlerConfig,
    /// The platform that the handler serves.
    pub platform: TradingPlatform,
    /// The circuit breaker.
    pub breaker: BreakerView,
}

/// A fresh entry for one leg of an order.
pub open spec fn leg_entry(
    primary: Seq<char>,
    order: OrderRequest,
    leg: ExitLegType,
    price: Decimal,
    platform: TradingPlatform,
    born: Creation,
) -> ExitEntryView {
    ExitEntryView {
        placeholder_id: placeholder_of(leg, primary),
        primary_order_id: primary,
        order_type: leg,
        symbol: order.symbol@,
        side: spec_opposite(order.side),
        trigger_price: price,
        limit_price: None,
        quantity: order.quantity,
        original_quantity: order.quantity,
        status: StatusView::Pending,
        created_at: born.created_at,
        made_at: born.made_at,
        created_at_utc: born.created_at_utc,
        updated_at: None,
        platform,
        sibling_id: None,
        last_attempted_fill_qty: None,
        position_id: None,
        version: 0,
        counted_orders: 0,
    }
}

/// A price that is not positive is refused.
pub open spec fn price_error(price: Option<Decimal>, field: Seq<char>) -> Option<GatewayErrorView> {
    match price {
        Some(p) => if p@ <= 0 {
            Some(
                GatewayErrorView::InvalidRequest {
                    message: field + " must be a positive number, got "@ + p.spec_text(),
                    field: None,
                },
            )
        } else {
            None
        },
        None => None,
    }
}

impl HandlerView {
    /// The placeholder IDs of a primary order.
    pub open spec fn placeholders(self, primary: Seq<char>) -> Seq<Seq<char>> {
        if self.by_primary.contains_key(primary) {
            self.by_primary[primary]
        } else {
            Seq::empty()
        }
    }

    /// Whether a primary order has an entry that is still kept.
    pub open spec fn has_pending(self, primary: Seq<char>) -> bool {
        exists|i: int|
            0 <= i < self.placeholders(primary).len() && self.entries.contains_key(
                #[trigger] self.placeholders(primary)[i],
            )
    }

    /// The handler with an entry in place of the one under its placeholder ID.
    pub open spec fn with_entry(self, id: Seq<char>, entry: ExitEntryView) -> HandlerView {
        HandlerView { entries: self.entries.insert(id, entry), ..self }
    }

    /// The handler with an entry inserted and listed under its primary order.
    pub open spec fn inserted(self, entry: ExitEntryView) -> HandlerView {
        HandlerView {
            entries: self.entries.insert(entry.placeholder_id, entry),
            by_primary: self.by_primary.insert(
                entry.primary_order_id,
                self.placeholders(entry.primary_order_id).push(entry.placeholder_id),
            ),
            ..self
        }
    }

    /// The handler with the sibling of an entry set.
    pub open spec fn with_sibling(self, id: Seq<char>, sibling: Seq<char>) -> HandlerView {
        self.with_entry(id, ExitEntryView { sibling_id: Some(sibling), ..self.entries[id] })
    }

    /// Why the exit legs of an order cannot be registered.
    pub open spec fn registration_error(self, order: OrderRequest) -> Option<GatewayErrorView> {
        if self.entries.len() >= self.config.max_pending_entries {
            Some(
                GatewayErrorView::Internal {
                    message: "Resource exhausted: pending_exit_entries (limit: "@ + digits(
                        self.config.max_pending_entries as nat,
                    ) + ")"@,
                    source: None,
                },
            )
        } else {
            match price_error(order.stop_loss, "stop_loss"@) {
                Some(e) => Some(e),
                None => price_error(order.take_profit, "take_profit"@),
            }
        }
    }

    /// The handler with one leg of an order registered, where the order has it.
    pub open spec fn with_leg(
        self,
        primary: Seq<char>,
        order: OrderRequest,
        leg: ExitLegType,
        price: Option<Decimal>,
        born: Creation,
    ) -> HandlerView {
        match price {
            Some(p) => self.inserted(
                leg_entry(primary, order, leg, p, self.platform, born),
            ),
            None => self,
        }
    }

    /// The handler with the exit legs of an order registered: one entry for each leg that the
    /// order has, created at the given times, and two legs are siblings.
    pub open spec fn registered(
        self,
        primary: Seq<char>,
        order: OrderRequest,
        sl_born: Creation,
        tp_born: Creation,
    ) -> HandlerView {
        let sl_id = placeholder_of(ExitLegType::StopLoss, primary);
        let tp_id = placeholder_of(ExitLegType::TakeProfit, primary);
        let both = self.with_leg(
            primary,
            order,
            ExitLegType::StopLoss,
            order.stop_loss,
            sl_born,
        ).with_leg(
            primary,
            order,
            ExitLegType::TakeProfit,
            order.take_profit,
            tp_born,
        );
        if order.stop_loss is Some && order.take_profit is Some {
            both.with_sibling(sl_id, tp_id).with_sibling(tp_id, sl_id)
        } else {
            both
        }
    }

    /// The state of a handler after the exit legs of an order were registered, with the times
    /// of creation that the entries themselves hold.
    pub open spec fn has_registered(
        self,
        before: HandlerView,
        primary: Seq<char>,
        order: OrderRequest,
    ) -> bool {
        let sl = self.entries[placeholder_of(ExitLegType::StopLoss, primary)];
        let tp = self.entries[placeholder_of(ExitLegType::TakeProfit, primary)];
        self == before.registered(
            primary,
            order,
            sl.born(),
            tp.born(),
        )
    }

    /// The entries with those of a list given another primary order.
    pub open spec fn renamed(self, ids: Seq<Seq<char>>, primary: Seq<char>) -> Map<
        Seq<char>,
        ExitEntryView,
    > {
        self.entries.map_entries(
            |id: Seq<char>, e: ExitEntryView|
                if ids.contains(id) {
                    ExitEntryView { primary_order_id: primary, ..e }
                } else {
                    e
                },
        )
    }

    /// The handler with the entries of a backup moved to the primary order.
    pub open spec fn activated(self, backup: Seq<char>, primary: Seq<char>) -> HandlerView {
        let ids = self.placeholders(backup);
        let rest = HandlerView { by_primary: self.by_primary.remove(backup), ..self };
        HandlerView {
            entries: self.renamed(ids, primary),
            by_primary: rest.by_primary.insert(primary, rest.placeholders(primary) + ids),
            ..self
        }
    }

    /// The handler without a primary order and all its entries.
    pub open spec fn without_primary(self, primary: Seq<char>) -> HandlerView {
        HandlerView {
            entries: self.entries.remove_keys(self.placeholders(primary).to_set()),
            by_primary: self.by_primary.remove(primary),
            ..self
        }
    }

    /// The placeholder IDs of a primary order without some of them; a primary order that is
    /// left without any goes.
    pub open spec fn unlisted(self, primary: Seq<char>, gone: Set<Seq<char>>) -> HandlerView {
        if self.by_primary.contains_key(primary) {
            let kept = self.by_primary[primary].filter(|id: Seq<char>| !gone.contains(id));
            HandlerView {
                by_primary: if kept.len() == 0 {
                    self.by_primary.remove(primary)
                } else {
                    self.by_primary.insert(primary, kept)
                },
                ..self
            }
        } else {
            self
        }
    }

    /// An entry is kept under its own placeholder ID, and no primary order is listed without
    /// placeholder IDs.
    pub open spec fn sound(self) -> bool {
        &&& forall|id: Seq<char>| #[trigger]
            self.entries.contains_key(id) ==> self.entries[id].placeholder_id == id
        &&& forall|primary: Seq<char>| #[trigger]
            self.by_primary.contains_key(primary) ==> self.by_primary[primary].len() > 0
    }
}

/// What is told of an entry that failed.
pub open spec fn failed_info(entry: ExitEntryView) -> FailedExitView {
    FailedExitView {
        primary_order_id: entry.primary_order_id,
        symbol: entry.symbol,
        order_type: entry.order_type,
        error: entry.status->Failed_error,
        failed_at: entry.status->Failed_failed_at,
        actual_order_ids: order_ids(entry.status.orders()),
    }
}

/// The IDs of orders.
pub open spec fn order_ids(orders: Seq<ActualOrder>) -> Seq<Seq<char>> {
    orders.map_values(|o: ActualOrder| o.order_id@)
}

// ---------------------------------------------------------------------------------------
// Exit handler
// ---------------------------------------------------------------------------------------

/// Each adapter has its own `ExitHandler`, isolating exit order state per provider.
pub struct ExitHandler {
    pending_by_placeholder: Table<ExitEntry>,
    pending_by_primary: Table<Vec<String>>,
    config: ExitHandlerConfig,
    circuit_breaker: ExitOrderCircuitBreaker,
    platform: TradingPlatform,
    epoch: Instant,
}

impl View for ExitHandler {
    type V = HandlerView;

    /// What the handler holds; the entries' times of creation count from the handler's own.
    closed spec fn view(&self) -> HandlerView {
        HandlerView {
            entries: self.pending_by_placeholder@.map_values(|e: ExitEntry| e@),
            by_primary: self.pending_by_primary@.map_values(|ids: Vec<String>| texts(ids@)),
            config: self.config,
            platform: self.platform,
            breaker: self.circuit_breaker@,
        }
    }
}

impl ExitHandler {
    /// The tables are intact, and what they hold is sound.
    pub closed spec fn wf(self) -> bool {
        &&& self.pending_by_placeholder.wf()
        &&& self.pending_by_primary.wf()
        &&& self@.sound()
    }

    /// The placeholder IDs in the order in which the entries are walked.
    pub closed spec fn rows(self) -> Seq<Seq<char>> {
        self.pending_by_placeholder.keys()
    }

    /// A walk meets each entry once.
    pub proof fn lemma_rows(self)
        requires
            self.wf(),
        ensures
            self@.sound(),
            self.rows().no_duplicates(),
            forall|id: Seq<char>|
                #![trigger self.rows().contains(id)]
                #![trigger self@.entries.contains_key(id)]
                self@.entries.contains_key(id) <==> self.rows().contains(id),
            forall|i: int|
                0 <= i < self.rows().len() ==> self@.entries.contains_key(#[trigger] self.rows()[i]),
    {
        self.pending_by_placeholder.lemma_rows();
        assert forall|id: Seq<char>|
            #![trigger self.rows().contains(id)]
            #![trigger self@.entries.contains_key(id)]
            self@.entries.contains_key(id) <==> self.rows().contains(id) by {
            assert(self.pending_by_placeholder@.contains_key(id)
                <==> self.pending_by_placeholder.keys().contains(id));
        }
        assert forall|i: int| 0 <= i < self.rows().len() implies self@.entries.contains_key(
            #[trigger] self.rows()[i],
        ) by {
            assert(self.pending_by_placeholder@.contains_key(
                self.pending_by_placeholder.keys()[i],
            ));
        }
    }

    /// A handler without entries.
    pub fn new(platform: TradingPlatform, config: ExitHandlerConfig) -> (h: ExitHandler)
        ensures
            h.wf(),
            h@ == (HandlerView {
                entries: Map::empty(),
                by_primary: Map::empty(),
                config,
                platform,
                breaker: BreakerView::fresh(
                    config.circuit_breaker_threshold as nat,
                    config.circuit_breaker_window.nanos as nat,
                ),
            }),
    {
        let circuit_breaker = ExitOrderCircuitBreaker::new(
            config.circuit_breaker_threshold,
            config.circuit_breaker_window,
        );
        let h = ExitHandler {
            pending_by_placeholder: Table::new(),
            pending_by_primary: Table::new(),
            config,
            circuit_breaker,
            platform,
            epoch: instant_now(),
        };
        assert(h@.entries =~= Map::empty());
        assert(h@.by_primary =~= Map::empty());
        h
    }

    /// A handler without entries, with the default configuration.
    pub fn with_defaults(platform: TradingPlatform) -> (h: ExitHandler)
        ensures
            h.wf(),
            h@.config.is_default(),
            h@ == (HandlerView {
                entries: Map::empty(),
                by_primary: Map::empty(),
                config: h@.config,
                platform,
                breaker: BreakerView::fresh(
                    h@.config.circuit_breaker_threshold as nat,
                    h@.config.circuit_breaker_window.nanos as nat,
                ),
            }),
    {
        ExitHandler::new(platform, ExitHandlerConfig::default())
    }

    // -----------------------------------------------------------------------------------
    // Access to the tables
    // -----------------------------------------------------------------------------------

    /// The number of rows of a walk.
    pub(crate) fn row_count(&self) -> (n: usize)
        requires
            self.wf(),
        ensures
            n == self.rows().len(),
            n == self@.entries.len(),
    {
        assert(self@.entries.dom() =~= self.pending_by_placeholder@.dom());
        self.pending_by_placeholder.len()
    }

    /// The entry in a row of a walk.
    pub(crate) fn row(&self, i: usize) -> (entry: &ExitEntry)
        requires
            self.wf(),
            i < self.rows().len(),
        ensures
            self@.entries.contains_key(self.rows()[i as int]),
            entry@ == self@.entries[self.rows()[i as int]],
            entry.placeholder_id@ == self.rows()[i as int],
    {
        proof {
            self.lemma_rows();
        }
        let entry = self.pending_by_placeholder.value_at(i);
        assert(self@.entries.contains_key(self.rows()[i as int]));
        entry
    }

    /// The entry under a placeholder ID.
    pub(crate) fn entry(&self, id: &str) -> (entry: Option<&ExitEntry>)
        requires
            self.wf(),
        ensures
            match entry {
                Some(e) => self@.entries.contains_key(id@) && e@ == self@.entries[id@]
                    && e.placeholder_id@ == id@,
                None => !self@.entries.contains_key(id@),
            },
    {
        let found = self.pending_by_placeholder.get(id);
        assert(self.pending_by_placeholder@.contains_key(id@) <==> self@.entries.contains_key(id@));
        found
    }

    /// Keeps an entry under its placeholder ID.
    pub(crate) fn put_entry(&mut self, entry: ExitEntry)
        requires
            old(self).wf(),
        ensures
            final(self).wf(),
            final(self)@ == old(self)@.with_entry(entry.placeholder_id@, entry@),
    {
        let ghost before = self@;
        let ghost id = entry.placeholder_id@;
        let ghost kept = entry@;
        let key = entry.placeholder_id.clone();
        let _ = self.pending_by_placeholder.insert(key, entry);
        proof {
            assert(self@.entries =~= before.entries.insert(id, kept));
            assert(self@ =~= before.with_entry(id, kept));
        }
    }

    /// Takes the entry under a placeholder ID out.
    pub(crate) fn take_entry(&mut self, id: &str) -> (entry: Option<ExitEntry>)
        requires
            old(self).wf(),
        ensures
            final(self).wf(),
            final(self)@ == (HandlerView {
                entries: old(self)@.entries.remove(id@),
                ..old(self)@
            }),
            match entry {
                Some(e) => old(self)@.entries.contains_key(id@) && e@ == old(self)@.entries[id@],
                None => !old(self)@.entries.contains_key(id@),
            },
    {
        let ghost before = self@;
        let taken = self.pending_by_placeholder.remove(id);
        proof {
            assert(before.entries.contains_key(id@) <==> old(self).pending_by_placeholder@.contains_key(id@));
            assert(self@.entries =~= before.entries.remove(id@));
        }
        taken
    }

    /// Takes the placeholder IDs of a primary order out of the index.
    pub(crate) fn take_placeholders(&mut self, primary: &str) -> (ids: Vec<String>)
        requires
            old(self).wf(),
        ensures
            final(self).wf(),
            texts(ids@) == old(self)@.placeholders(primary@),
            final(self)@ == (HandlerView {
                by_primary: old(self)@.by_primary.remove(primary@),
                ..old(self)@
            }),
    {
        let ghost before = self@;
        let taken = self.pending_by_primary.remove(primary);
        proof {
            assert(before.by_primary.contains_key(primary@) <==> old(self).pending_by_primary@.contains_key(primary@));
            assert(self@.by_primary =~= before.by_primary.remove(primary@));
        }
        match taken {
            Some(ids) => ids,
            None => {
                let ids: Vec<String> = Vec::new();
                assert(texts(ids@) =~= Seq::<Seq<char>>::empty());
                ids
            },
        }
    }

    /// Lists placeholder IDs under a primary order, after those that are already listed.
    pub(crate) fn extend_secondary_index(&mut self, primary_order_id: &str, ids: &Vec<String>)
        requires
            old(self).wf(),
            ids@.len() > 0,
        ensures
            final(self).wf(),
            final(self)@ == (HandlerView {
                by_primary: old(self)@.by_primary.insert(
                    primary_order_id@,
                    old(self)@.placeholders(primary_order_id@) + texts(ids@),
                ),
                ..old(self)@
            }),
    {
        let ghost before = self@;
        let mut listed = self.take_placeholders(primary_order_id);
        let ghost already = texts(listed@);
        let mut i: usize = 0;
        while i < ids.len()
            invariant
                i <= ids.len(),
                texts(listed@) == already + texts(ids@).take(i as int),
            decreases ids.len() - i,
        {
            let ghost shorter = texts(listed@);
            listed.push(ids[i].clone());
            proof {
                assert(texts(listed@) =~= shorter.push(ids@[i as int]@));
                assert(texts(ids@).take(i + 1) =~= texts(ids@).take(i as int).push(
                    ids@[i as int]@,
                ));
                assert(texts(listed@) =~= already + texts(ids@).take(i + 1));
            }
            i = i + 1;
        }
        assert(texts(ids@).take(i as int) =~= texts(ids@));
        let ghost all = texts(listed@);
        let ghost rest = self@.by_primary;
        assert(all.len() > 0);
        let _ = self.pending_by_primary.insert(primary_order_id.to_owned(), listed);
        proof {
            assert(self@.by_primary =~= rest.insert(primary_order_id@, all));
            assert(self@.by_primary =~= before.by_primary.insert(primary_order_id@, all));
            assert(self@.entries =~= before.entries);
        }
    }

    /// Takes placeholder IDs out of the list of a primary order; a primary order that is left
    /// without any goes.
    pub(crate) fn remove_batch_from_secondary_index(
        &mut self,
        primary_order_id: &str,
        to_remove: &Vec<String>,
    )
        requires
            old(self).wf(),
        ensures
            final(self).wf(),
            final(self)@ == old(self)@.unlisted(primary_order_id@, texts(to_remove@).to_set()),
    {
        let ghost before = self@;
        let ghost gone = texts(to_remove@).to_set();
        if !self.pending_by_primary.contains_key(primary_order_id) {
            assert(!before.by_primary.contains_key(primary_order_id@));
            return ;
        }
        assert(before.by_primary.contains_key(primary_order_id@));
        let listed = self.take_placeholders(primary_order_id);
        let mut kept: Vec<String> = Vec::new();
        let ghost keep = |id: Seq<char>| !gone.contains(id);
        let mut i: usize = 0;
        while i < listed.len()
            invariant
                i <= listed.len(),
                gone == texts(to_remove@).to_set(),
                keep == |id: Seq<char>| !gone.contains(id),
                texts(kept@) == texts(listed@).take(i as int).filter(keep),
            decreases listed.len() - i,
        {
            let ghost shorter = texts(kept@);
            proof {
                let longer = texts(listed@).take(i + 1);
                assert(longer.drop_last() =~= texts(listed@).take(i as int));
                assert(longer.last() == listed@[i as int]@);
                reveal(Seq::filter);
            }
            if !list_contains(to_remove, listed[i].as_str()) {
                kept.push(listed[i].clone());
                assert(texts(kept@) =~= shorter.push(listed@[i as int]@));
            }
            i = i + 1;
        }
        assert(texts(listed@).take(i as int) =~= texts(listed@));
        let ghost left = texts(kept@);
        let ghost rest = self@.by_primary;
        if kept.len() > 0 {
            let _ = self.pending_by_primary.insert(primary_order_id.to_owned(), kept);
            assert(self@.by_primary =~= rest.insert(primary_order_id@, left));
            assert(self@.by_primary =~= before.by_primary.insert(primary_order_id@, left));
        }
        proof {
            assert(self@.entries =~= before.entries);
            assert(self@ =~= before.unlisted(primary_order_id@, gone));
        }
    }

    // -----------------------------------------------------------------------------------
    // Questions
    // -----------------------------------------------------------------------------------

    /// The number of entries.
    pub fn pending_count(&self) -> (n: usize)
        requires
            self.wf(),
        ensures
            n == self@.entries.len(),
    {
        self.row_count()
    }

    /// The number of primary orders that have entries listed.
    pub fn primary_orders_count(&self) -> (n: usize)
        requires
            self.wf(),
        ensures
            n == self@.by_primary.len(),
    {
        assert(self@.by_primary.dom() =~= self.pending_by_primary@.dom());
        self.pending_by_primary.len()
    }

    /// Whether an ID has the form of a placeholder ID.
    pub fn is_placeholder_id(id: &str) -> (b: bool)
        ensures
            b == (has_prefix(id@, ExitLegType::StopLoss.spec_prefix()) || has_prefix(
                id@,
                ExitLegType::TakeProfit.spec_prefix(),
            )),
    {
        starts_with(id, "exit:sl:") || starts_with(id, "exit:tp:")
    }

    /// Whether a primary order has an entry that is still kept.
    pub fn has_pending_for_primary(&self, primary_order_id: &str) -> (b: bool)
        requires
            self.wf(),
        ensures
            b == self@.has_pending(primary_order_id@),
    {
        let ids = self.get_placeholders_for_primary(primary_order_id);
        let mut i: usize = 0;
        while i < ids.len()
            invariant
                i <= ids.len(),
                self.wf(),
                texts(ids@) == self@.placeholders(primary_order_id@),
                forall|j: int|
                    0 <= j < i ==> !self@.entries.contains_key(
                        #[trigger] self@.placeholders(primary_order_id@)[j],
                    ),
            decreases ids.len() - i,
        {
            assert(texts(ids@)[i as int] == ids@[i as int]@);
            if self.entry(ids[i].as_str()).is_some() {
                return true;
            }
            i = i + 1;
        }
        false
    }

    /// The placeholder IDs listed under a primary order.
    pub fn get_placeholders_for_primary(&self, primary_order_id: &str) -> (ids: Vec<String>)
        requires
            self.wf(),
        ensures
            texts(ids@) == self@.placeholders(primary_order_id@),
    {
        assert(self@.by_primary.contains_key(primary_order_id@)
            <==> self.pending_by_primary@.contains_key(primary_order_id@));
        match self.pending_by_primary.get(primary_order_id) {
            Some(ids) => copy_list(ids),
            None => {
                let ids: Vec<String> = Vec::new();
                assert(texts(ids@) =~= Seq::<Seq<char>>::empty());
                ids
            },
        }
    }

    /// A copy of an entry.
    pub fn get_entry(&self, placeholder_id: &str) -> (entry: Option<ExitEntry>)
        requires
            self.wf(),
        ensures
            match entry {
                Some(e) => self@.entries.contains_key(placeholder_id@) && e@
                    == self@.entries[placeholder_id@],
                None => !self@.entries.contains_key(placeholder_id@),
            },
    {
        match self.entry(placeholder_id) {
            Some(e) => Some(e.clone()),
            None => None,
        }
    }

    /// The status of an entry.
    pub fn get_status(&self, placeholder_id: &str) -> (status: Option<ExitEntryStatus>)
        requires
            self.wf(),
        ensures
            match status {
                Some(s) => self@.entries.contains_key(placeholder_id@) && s@
                    == self@.entries[placeholder_id@].status,
                None => !self@.entries.contains_key(placeholder_id@),
            },
    {
        match self.entry(placeholder_id) {
            Some(e) => Some(e.status.clone()),
            None => None,
        }
    }

    /// The status of an entry with its times.
    pub fn get_status_info(&self, placeholder_id: &str) -> (info: Option<ExitEntryStatusInfo>)
        requires
            self.wf(),
        ensures
            match info {
                Some(i) => self@.entries.contains_key(placeholder_id@) && i.status@
                    == self@.entries[placeholder_id@].status && i.created_at
                    == self@.entries[placeholder_id@].created_at_utc && i.updated_at
                    == self@.entries[placeholder_id@].updated_at,
                None => !self@.entries.contains_key(placeholder_id@),
            },
    {
        match self.entry(placeholder_id) {
            Some(e) => Some(
                ExitEntryStatusInfo {
                    status: e.status.clone(),
                    created_at: e.created_at_utc,
                    updated_at: e.updated_at,
                },
            ),
            None => None,
        }
    }

    /// The platform that the handler serves.
    pub fn platform(&self) -> (platform: TradingPlatform)
        ensures
            platform == self@.platform,
    {
        self.platform
    }

    /// The configuration.
    pub fn config(&self) -> (config: &ExitHandlerConfig)
        ensures
            *config == self@.config,
    {
        &self.config
    }

    /// Returns clones of all non-terminal exit entries (not Cancelled or Expired).
    pub fn get_non_terminal_entries(&self) -> (entries: Vec<ExitEntry>)
        requires
            self.wf(),
        ensures
            entries@.map_values(|e: ExitEntry| e@) == self.rows().filter(
                |id: Seq<char>|
                    !(self@.entries[id].status is Cancelled) && !(self@.entries[id].status is Expired),
            ).map_values(|id: Seq<char>| self@.entries[id]),
    {
        let ghost shown = |e: ExitEntry| e@;
        let ghost live = |id: Seq<char>|
            !(self@.entries[id].status is Cancelled) && !(self@.entries[id].status is Expired);
        let ghost told = |id: Seq<char>| self@.entries[id];
        let n: usize = self.row_count();
        let mut entries: Vec<ExitEntry> = Vec::new();
        let mut i: usize = 0;
        assert(entries@.map_values(shown) =~= self.rows().take(0).filter(live).map_values(told)) by {
            reveal(Seq::filter);
        }
        while i < n
            invariant
                i <= n,
                self.wf(),
                n == self.rows().len(),
                shown == |e: ExitEntry| e@,
                live == |id: Seq<char>|
                    !(self@.entries[id].status is Cancelled) && !(
                    self@.entries[id].status is Expired),
                told == |id: Seq<char>| self@.entries[id],
                entries@.map_values(shown) == self.rows().take(i as int).filter(live).map_values(
                    told,
                ),
            decreases n - i,
        {
            let ghost before = entries@.map_values(shown);
            let ghost id = self.rows()[i as int];
            proof {
                lemma_filter_next(self.rows(), i as int, live);
            }
            let entry = self.row(i);
            match &entry.status {
                ExitEntryStatus::Cancelled { .. } | ExitEntryStatus::Expired { .. } => {},
                _ => {
                    let copy = entry.clone();
                    entries.push(copy);
                    proof {
                        assert(live(id));
                        assert(entries@.map_values(shown) =~= before.push(told(id)));
                        assert(self.rows().take(i + 1).filter(live).map_values(told)
                            =~= self.rows().take(i as int).filter(live).map_values(told).push(
                            told(id),
                        ));
                    }
                },
            }
            i = i + 1;
        }
        assert(self.rows().take(n as int) =~= self.rows());
        entries
    }

    /// What reconciliation needs to know of the entries that wait for fills.
    pub fn get_pending_entries(&self) -> (infos: Vec<ExitEntryInfo>)
        requires
            self.wf(),
        ensures
            infos@.map_values(
                |i: ExitEntryInfo| (i.primary_order_id@, i.order_type, i.created_at),
            ) == self.rows().filter(
                |id: Seq<char>| self@.entries[id].status.is_pending(),
            ).map_values(
                |id: Seq<char>|
                    (
                        self@.entries[id].primary_order_id,
                        self@.entries[id].order_type,
                        self@.entries[id].created_at_utc,
                    ),
            ),
    {
        let ghost shown = |i: ExitEntryInfo| (i.primary_order_id@, i.order_type, i.created_at);
        let ghost live = |id: Seq<char>| self@.entries[id].status.is_pending();
        let ghost told = |id: Seq<char>|
            (
                self@.entries[id].primary_order_id,
                self@.entries[id].order_type,
                self@.entries[id].created_at_utc,
            );
        let n: usize = self.row_count();
        let mut infos: Vec<ExitEntryInfo> = Vec::new();
        let mut i: usize = 0;
        assert(infos@.map_values(shown) =~= self.rows().take(0).filter(live).map_values(told)) by {
            reveal(Seq::filter);
        }
        while i < n
            invariant
                i <= n,
                self.wf(),
                n == self.rows().len(),
                shown == |i: ExitEntryInfo| (i.primary_order_id@, i.order_type, i.created_at),
                live == |id: Seq<char>| self@.entries[id].status.is_pending(),
                told == |id: Seq<char>|
                    (
                        self@.entries[id].primary_order_id,
                        self@.entries[id].order_type,
                        self@.entries[id].created_at_utc,
                    ),
                infos@.map_values(shown) == self.rows().take(i as int).filter(live).map_values(told),
            decreases n - i,
        {
            let ghost before = infos@.map_values(shown);
            let ghost id = self.rows()[i as int];
            proof {
                lemma_filter_next(self.rows(), i as int, live);
            }
            let entry = self.row(i);
            if entry.is_pending() {
                let info = ExitEntryInfo {
                    primary_order_id: entry.primary_order_id.clone(),
                    order_type: entry.order_type,
                    created_at: entry.created_at_utc,
                };
                infos.push(info);
                proof {
                    assert(live(id));
                    assert(infos@.map_values(shown) =~= before.push(told(id)));
                    assert(self.rows().take(i + 1).filter(live).map_values(told)
                        =~= self.rows().take(i as int).filter(live).map_values(told).push(told(id)));
                }
            }
            i = i + 1;
        }
        assert(self.rows().take(n as int) =~= self.rows());
        infos
    }

    /// Returns information about all exit entries that failed placement.
    pub fn get_failed_entries_internal(&self) -> (infos: Vec<FailedExitInfo>)
        requires
            self.wf(),
        ensures
            infos@.map_values(|i: FailedExitInfo| i@) == self.rows().filter(
                |id: Seq<char>| self@.entries[id].status is Failed,
            ).map_values(|id: Seq<char>| failed_info(self@.entries[id])),
    {
        let ghost shown = |i: FailedExitInfo| i@;
        let ghost live = |id: Seq<char>| self@.entries[id].status is Failed;
        let ghost told = |id: Seq<char>| failed_info(self@.entries[id]);
        let n: usize = self.row_count();
        let mut infos: Vec<FailedExitInfo> = Vec::new();
        let mut i: usize = 0;
        assert(infos@.map_values(shown) =~= self.rows().take(0).filter(live).map_values(told)) by {
            reveal(Seq::filter);
        }
        while i < n
            invariant
                i <= n,
                self.wf(),
                n == self.rows().len(),
                shown == |i: FailedExitInfo| i@,
                live == |id: Seq<char>| self@.entries[id].status is Failed,
                told == |id: Seq<char>| failed_info(self@.entries[id]),
                infos@.map_values(shown) == self.rows().take(i as int).filter(live).map_values(told),
            decreases n - i,
        {
            let ghost before = infos@.map_values(shown);
            let ghost id = self.rows()[i as int];
            proof {
                lemma_filter_next(self.rows(), i as int, live);
            }
            let entry = self.row(i);
            match &entry.status {
                ExitEntryStatus::Failed { error, failed_at, actual_orders, .. } => {
                    let info = FailedExitInfo {
                        primary_order_id: entry.primary_order_id.clone(),
                        symbol: entry.symbol.clone(),
                        order_type: entry.order_type,
                        error: error.clone(),
                        failed_at: *failed_at,
                        actual_order_ids: ids_of(&actual_orders.to_vec()),
                    };
                    proof {
                        assert(info@ =~= told(id));
                    }
                    infos.push(info);
                    proof {
                        assert(live(id));
                        assert(infos@.map_values(shown) =~= before.push(told(id)));
                        assert(self.rows().take(i + 1).filter(live).map_values(told)
                            =~= self.rows().take(i as int).filter(live).map_values(told).push(
                            told(id),
                        ));
                    }
                },
                _ => {},
            }
            i = i + 1;
        }
        assert(self.rows().take(n as int) =~= self.rows());
        infos
    }

    // -----------------------------------------------------------------------------------
    // Circuit breaker
    // -----------------------------------------------------------------------------------

    /// Whether the circuit breaker is open.
    pub fn is_circuit_breaker_open_internal(&self) -> (open: bool)
        ensures
            open == self@.breaker.open,
    {
        self.circuit_breaker.is_open()
    }

    /// Resets the circuit breaker, unless the last reset was only just now.
    pub fn reset_circuit_breaker(&mut self) -> (result: Result<(), &'static str>)
        requires
            old(self).wf(),
        ensures
            final(self).wf(),
            match result {
                Ok(()) => final(self)@.breaker.last_reset matches Some(now)
                    && !old(self)@.breaker.cooling_down(now) && final(self)@ == (HandlerView {
                    breaker: old(self)@.breaker.after_reset(now),
                    ..old(self)@
                }),
                Err(message) => old(self)@.breaker.last_reset is Some && message@
                    == COOLDOWN_MESSAGE@ && final(self)@ == old(self)@,
            },
    {
        let ghost before = self@;
        let result = self.circuit_breaker.reset();
        proof {
            assert(self@.entries =~= before.entries);
            assert(self@.by_primary =~= before.by_primary);
        }
        result
    }

    /// Counts a failed placement.
    pub(crate) fn count_failure(&mut self)
        requires
            old(self).wf(),
        ensures
            final(self).wf(),
            final(self)@ == (HandlerView {
                breaker: old(self)@.breaker.after_failure(final(self)@.breaker.failures.last()),
                ..old(self)@
            }),
    {
        let ghost before = self@;
        self.circuit_breaker.record_failure();
        proof {
            assert(self@.entries =~= before.entries);
            assert(self@.by_primary =~= before.by_primary);
        }
    }

    /// The state of the circuit breaker.
    pub fn circuit_breaker_state(&self) -> (state: CircuitState)
        ensures
            state == (if self@.breaker.open {
                CircuitState::Open
            } else {
                CircuitState::Closed
            }),
    {
        self.circuit_breaker.state()
    }

    /// The number of failures that the circuit breaker counts, at the time that the clock shows.
    pub fn circuit_breaker_failure_count(&self) -> (n: usize)
        ensures
            exists|now: u128| n == #[trigger] self@.breaker.count_at(now),
    {
        self.circuit_breaker.failure_count()
    }

    // -----------------------------------------------------------------------------------
    // Registration
    // -----------------------------------------------------------------------------------

    /// The time since the handler was made, in nanoseconds, as the clock shows it.
    pub(crate) fn clock(&self) -> (now: u128) {
        nanos_between(&instant_now(), &self.epoch)
    }

    /// Inserts an exit entry and lists it under its primary order. How long before or after the
    /// handler the entry was made is what the clock shows between the two.
    pub fn insert_entry(&mut self, entry: ExitEntry)
        requires
            old(self).wf(),
        ensures
            final(self).wf(),
            final(self)@ == old(self)@.inserted(
                (ExitEntryView {
                    made_at: final(self)@.entries[entry@.placeholder_id].made_at,
                    ..entry@
                }),
            ),
    {
        let after: u128 = nanos_between(&entry.created_at, &self.epoch);
        let before: u128 = nanos_between(&self.epoch, &entry.created_at);
        self.insert_entry_at(entry, signed_span(after, before));
    }

    /// Inserts an exit entry that was made at a time, counted from the handler's making, and
    /// lists it under its primary order.
    pub fn insert_entry_at(&mut self, entry: ExitEntry, made_at: i128)
        requires
            old(self).wf(),
        ensures
            final(self).wf(),
            final(self)@ == old(self)@.inserted((ExitEntryView { made_at, ..entry@ })),
    {
        let ghost old_entry = entry@;
        let mut entry = entry;
        entry.made_at = made_at;
        assert(entry@ =~= (ExitEntryView { made_at, ..old_entry }));
        let ghost before = self@;
        let ghost kept = entry@;
        let primary_order_id = entry.primary_order_id.clone();
        let mut ids: Vec<String> = Vec::new();
        ids.push(entry.placeholder_id.clone());
        self.put_entry(entry);
        self.extend_secondary_index(primary_order_id.as_str(), &ids);
        proof {
            assert(texts(ids@) =~= seq![kept.placeholder_id]);
            let listed = before.placeholders(kept.primary_order_id);
            assert(listed + texts(ids@) =~= listed.push(kept.placeholder_id));
            assert(self@ =~= before.inserted(kept));
        }
    }

    /// The orders placed at the provider for an entry.
    pub fn get_actual_orders_from_entry(entry: &ExitEntry) -> (orders: Vec<ActualOrder>)
        ensures
            orders@ == entry@.status.orders(),
    {
        entry.status.actual_orders().to_vec()
    }

    /// Refuses a price that is not positive.
    fn validate_price(price: Option<Decimal>, field_name: &str) -> (result: Result<(), GatewayError>)
        ensures
            match result {
                Ok(()) => price_error(price, field_name@) is None,
                Err(e) => price_error(price, field_name@) == Some(e@),
            },
    {
        match price {
            Some(p) => if !p.is_positive() {
                Err(
                    GatewayError::InvalidRequest {
                        message: join3(
                            field_name,
                            " must be a positive number, got ",
                            p.to_text().as_str(),
                        ),
                        field: None,
                    },
                )
            } else {
                Ok(())
            },
            None => Ok(()),
        }
    }

    /// Registers one leg of an order.
    fn register_leg(
        &mut self,
        primary_order_id: &str,
        order: &OrderRequest,
        leg: ExitLegType,
        price: Decimal,
    ) -> (placeholder_id: String)
        requires
            old(self).wf(),
        ensures
            final(self).wf(),
            placeholder_id@ == placeholder_of(leg, primary_order_id@),
            final(self)@ == old(self)@.with_leg(
                primary_order_id@,
                *order,
                leg,
                Some(price),
                final(self)@.entries[placeholder_id@].born(),
            ),
    {
        let entry = ExitEntry::new(
            ExitEntryParams {
                primary_order_id: primary_order_id.to_owned(),
                order_type: leg,
                symbol: order.symbol.clone(),
                side: opposite_side(order.side),
                trigger_price: price,
                limit_price: None,
                quantity: order.quantity,
                platform: self.platform,
            },
        );
        let placeholder_id = entry.placeholder_id.clone();
        self.insert_entry(entry);
        proof {
            let made = self@.entries[placeholder_id@];
            assert(made =~= leg_entry(
                primary_order_id@,
                *order,
                leg,
                price,
                old(self)@.platform,
                made.born(),
            ));
        }
        placeholder_id
    }

    /// Sets the sibling of an entry.
    fn link_sibling(&mut self, id: &str, sibling: &str)
        requires
            old(self).wf(),
            old(self)@.entries.contains_key(id@),
        ensures
            final(self).wf(),
            final(self)@ == old(self)@.with_sibling(id@, sibling@),
    {
        let copy = self.get_entry(id);
        match copy {
            Some(entry) => {
                let mut entry = entry;
                entry.sibling_id = Some(sibling.to_owned());
                proof {
                    assert(entry@ =~= (ExitEntryView {
                        sibling_id: Some(sibling@),
                        ..self@.entries[id@]
                    }));
                }
                self.put_entry(entry);
            },
            None => {},
        }
    }

    /// Register pending SL/TP orders for a primary order.
    pub fn register(&mut self, primary_order_id: &str, order: &OrderRequest) -> (result: Result<
        RegisteredExitLegs,
        GatewayError,
    >)
        requires
            old(self).wf(),
        ensures
            final(self).wf(),
            match result {
                Err(e) => old(self)@.registration_error(*order) == Some(e@)
                    && final(self)@ == old(self)@,
                Ok(legs) => {
                    &&& old(self)@.registration_error(*order) is None
                    &&& final(self)@.has_registered(old(self)@, primary_order_id@, *order)
                    &&& opt_text(legs.stop_loss_id) == (if order.stop_loss is Some {
                        Some(placeholder_of(ExitLegType::StopLoss, primary_order_id@))
                    } else {
                        None
                    })
                    &&& opt_text(legs.take_profit_id) == (if order.take_profit is Some {
                        Some(placeholder_of(ExitLegType::TakeProfit, primary_order_id@))
                    } else {
                        None
                    })
                },
            },
    {
        let ghost before = self@;
        if self.row_count() >= self.config.max_pending_entries {
            return Err(
                GatewayError::Internal {
                    message: join3(
                        "Resource exhausted: pending_exit_entries (limit: ",
                        number_text(self.config.max_pending_entries as u64).as_str(),
                        ")",
                    ),
                    source: None,
                },
            );
        }
        match ExitHandler::validate_price(order.stop_loss, "stop_loss") {
            Ok(()) => {},
            Err(e) => {
                return Err(e);
            },
        }
        match ExitHandler::validate_price(order.take_profit, "take_profit") {
            Ok(()) => {},
            Err(e) => {
                return Err(e);
            },
        }
        proof {
            super::types::law_placeholder_id_round_trip(
                ExitLegType::StopLoss,
                primary_order_id@,
                ExitLegType::TakeProfit,
                primary_order_id@,
            );
        }
        let mut legs = RegisteredExitLegs::empty();
        match order.stop_loss {
            Some(price) => {
                legs.stop_loss_id = Some(
                    self.register_leg(primary_order_id, order, ExitLegType::StopLoss, price),
                );
            },
            None => {},
        }
        let ghost with_stop = self@;
        match order.take_profit {
            Some(price) => {
                legs.take_profit_id = Some(
                    self.register_leg(primary_order_id, order, ExitLegType::TakeProfit, price),
                );
            },
            None => {},
        }
        let ghost with_both = self@;
        match (&legs.stop_loss_id, &legs.take_profit_id) {
            (Some(sl_id), Some(tp_id)) => {
                self.link_sibling(sl_id.as_str(), tp_id.as_str());
                self.link_sibling(tp_id.as_str(), sl_id.as_str());
            },
            _ => {},
        }
        proof {
            let sl_id = placeholder_of(ExitLegType::StopLoss, primary_order_id@);
            let tp_id = placeholder_of(ExitLegType::TakeProfit, primary_order_id@);
            let sl = self@.entries[sl_id];
            let tp = self@.entries[tp_id];
            assert(with_stop == before.with_leg(
                primary_order_id@,
                *order,
                ExitLegType::StopLoss,
                order.stop_loss,
                sl.born(),
            ));
            assert(with_both == with_stop.with_leg(
                primary_order_id@,
                *order,
                ExitLegType::TakeProfit,
                order.take_profit,
                tp.born(),
            ));
        }
        Ok(legs)
    }

    /// Register a pre-emptive backup before attempting native OCO placement.
    ///
    /// The backup is registered like a primary order, under an ID that is made up for it.
    pub fn register_preemptive(&mut self, order_request: &OrderRequest) -> (result: Result<
        ExitBackupRegistration,
        GatewayError,
    >)
        requires
            old(self).wf(),
        ensures
            final(self).wf(),
            match result {
                Err(e) => old(self)@.registration_error(*order_request) == Some(e@)
                    && final(self)@ == old(self)@,
                Ok(backup) => {
                    &&& old(self)@.registration_error(*order_request) is None
                    &&& has_prefix(backup.id@, "backup:"@)
                    &&& is_hyphenated_uuid(backup.id@.skip("backup:"@.len() as int))
                    &&& final(self)@.has_registered(old(self)@, backup.id@, *order_request)
                    &&& texts(backup.placeholder_ids@) == leg_ids(backup.id@, *order_request)
                },
            },
    {
        let uuid = new_uuid();
        let backup_id = join2("backup:", uuid.as_str());
        assert(backup_id@.subrange(0, "backup:"@.len() as int) =~= "backup:"@);
        assert(backup_id@.skip("backup:"@.len() as int) =~= uuid@);
        self.register_backup(backup_id, order_request)
    }

    /// Registers a backup under an ID.
    pub fn register_backup(&mut self, backup_id: String, order_request: &OrderRequest) -> (result:
        Result<ExitBackupRegistration, GatewayError>)
        requires
            old(self).wf(),
        ensures
            final(self).wf(),
            match result {
                Err(e) => old(self)@.registration_error(*order_request) == Some(e@)
                    && final(self)@ == old(self)@,
                Ok(backup) => {
                    &&& old(self)@.registration_error(*order_request) is None
                    &&& backup.id@ == backup_id@
                    &&& final(self)@.has_registered(old(self)@, backup_id@, *order_request)
                    &&& texts(backup.placeholder_ids@) == leg_ids(backup_id@, *order_request)
                },
            },
    {
        match self.register(backup_id.as_str(), order_request) {
            Err(e) => Err(e),
            Ok(registered) => {
                let mut placeholder_ids: Vec<String> = Vec::new();
                let ghost sl = placeholder_of(ExitLegType::StopLoss, backup_id@);
                let ghost tp = placeholder_of(ExitLegType::TakeProfit, backup_id@);
                match registered.stop_loss_id {
                    Some(id) => {
                        placeholder_ids.push(id);
                    },
                    None => {},
                }
                match registered.take_profit_id {
                    Some(id) => {
                        placeholder_ids.push(id);
                    },
                    None => {},
                }
                assert(texts(placeholder_ids@) =~= leg_ids(backup_id@, *order_request));
                Ok(ExitBackupRegistration { id: backup_id, placeholder_ids })
            },
        }
    }

    /// Activate backup entries by linking them to the actual primary order.
    pub fn activate_backup(&mut self, backup_id: &str, actual_primary_id: &str) -> (result: Result<
        (),
        GatewayError,
    >)
        requires
            old(self).wf(),
        ensures
            final(self).wf(),
            match result {
                Ok(()) => old(self)@.by_primary.contains_key(backup_id@)
                    && final(self)@ == old(self)@.activated(backup_id@, actual_primary_id@),
                Err(e) => !old(self)@.by_primary.contains_key(backup_id@)
                    && final(self)@ == old(self)@
                    && e@ == (GatewayErrorView::OrderNotFound { id: backup_id@ }),
            },
    {
        let ghost before = self@;
        proof {
            self.lemma_rows();
        }
        let placeholder_ids = self.get_placeholders_for_primary(backup_id);
        if placeholder_ids.len() == 0 {
            return Err(GatewayError::OrderNotFound { id: backup_id.to_owned() });
        }
        let ghost ids = texts(placeholder_ids@);
        let mut i: usize = 0;
        assert(before.entries =~= before.renamed(ids.take(0), actual_primary_id@));
        while i < placeholder_ids.len()
            invariant
                i <= placeholder_ids.len(),
                self.wf(),
                ids == texts(placeholder_ids@),
                self@ == (HandlerView {
                    entries: before.renamed(ids.take(i as int), actual_primary_id@),
                    ..before
                }),
            decreases placeholder_ids.len() - i,
        {
            let ghost id = ids[i as int];
            let ghost step = self@;
            assert(id == placeholder_ids@[i as int]@);
            match self.get_entry(placeholder_ids[i].as_str()) {
                Some(entry) => {
                    let mut entry = entry;
                    entry.primary_order_id = actual_primary_id.to_owned();
                    proof {
                        self.lemma_rows();
                        assert(entry@ =~= (ExitEntryView {
                            primary_order_id: actual_primary_id@,
                            ..step.entries[id]
                        }));
                    }
                    self.put_entry(entry);
                },
                None => {},
            }
            proof {
                assert(ids.take(i + 1) =~= ids.take(i as int).push(id));
                lemma_contains_push(ids.take(i as int), id);
                assert(self@.entries =~= before.renamed(ids.take(i + 1), actual_primary_id@));
            }
            i = i + 1;
        }
        assert(ids.take(i as int) =~= ids);
        let _ = self.take_placeholders(backup_id);
        self.extend_secondary_index(actual_primary_id, &placeholder_ids);
        assert(self@ =~= before.activated(backup_id@, actual_primary_id@));
        Ok(())
    }

    /// Cancel backup entries after successful OCO placement.
    pub fn cancel_backup(&mut self, backup_id: &str) -> (result: Result<(), GatewayError>)
        requires
            old(self).wf(),
        ensures
            final(self).wf(),
            match result {
                Ok(()) => old(self)@.by_primary.contains_key(backup_id@)
                    && final(self)@ == old(self)@.without_primary(backup_id@),
                Err(e) => !old(self)@.by_primary.contains_key(backup_id@)
                    && final(self)@ == old(self)@
                    && e@ == (GatewayErrorView::OrderNotFound { id: backup_id@ }),
            },
    {
        let ghost before = self@;
        proof {
            self.lemma_rows();
        }
        let placeholder_ids = self.get_placeholders_for_primary(backup_id);
        if placeholder_ids.len() == 0 {
            return Err(GatewayError::OrderNotFound { id: backup_id.to_owned() });
        }
        let ghost ids = texts(placeholder_ids@);
        let mut i: usize = 0;
        assert(before.entries =~= before.entries.remove_keys(ids.take(0).to_set()));
        while i < placeholder_ids.len()
            invariant
                i <= placeholder_ids.len(),
                self.wf(),
                ids == texts(placeholder_ids@),
                self@ == (HandlerView {
                    entries: before.entries.remove_keys(ids.take(i as int).to_set()),
                    ..before
                }),
            decreases placeholder_ids.len() - i,
        {
            let ghost id = ids[i as int];
            assert(id == placeholder_ids@[i as int]@);
            let _ = self.take_entry(placeholder_ids[i].as_str());
            proof {
                assert(ids.take(i + 1) =~= ids.take(i as int).push(id));
                lemma_contains_push(ids.take(i as int), id);
                assert(self@.entries =~= before.entries.remove_keys(ids.take(i + 1).to_set()));
            }
            i = i + 1;
        }
        assert(ids.take(i as int) =~= ids);
        let _ = self.take_placeholders(backup_id);
        assert(self@ =~= before.without_primary(backup_id@));
        Ok(())
    }
}

/// The placeholder IDs of the exit legs that an order has.
pub open spec fn leg_ids(primary: Seq<char>, order: OrderRequest) -> Seq<Seq<char>> {
    let sl = if order.stop_loss is Some {
        seq![placeholder_of(ExitLegType::StopLoss, primary)]
    } else {
        Seq::empty()
    };
    let tp = if order.take_profit is Some {
        seq![placeholder_of(ExitLegType::TakeProfit, primary)]
    } else {
        Seq::empty()
    };
    sl + tp
}

/// The IDs of orders.
pub(crate) fn ids_of(orders: &Vec<ActualOrder>) -> (ids: Vec<String>)
    ensures
        texts(ids@) == order_ids(orders@),
{
    let mut ids: Vec<String> = Vec::new();
    let mut i: usize = 0;
    while i < orders.len()
        invariant
            i <= orders.len(),
            texts(ids@) == order_ids(orders@).take(i as int),
        decreases orders.len() - i,
    {
        let ghost before = texts(ids@);
        ids.push(orders[i].order_id.clone());
        proof {
            assert(texts(ids@) =~= before.push(orders@[i as int].order_id@));
            assert(texts(ids@) =~= order_ids(orders@).take(i + 1));
        }
        i = i + 1;
    }
    assert(order_ids(orders@).take(i as int) =~= order_ids(orders@));
    ids
}

/// One more element of a sequence adds at most itself to what a filter keeps.
pub(crate) proof fn lemma_filter_next<T>(s: Seq<T>, i: int, keep: spec_fn(T) -> bool)
    requires
        0 <= i < s.len(),
    ensures
        s.take(i + 1).filter(keep) == (if keep(s[i]) {
            s.take(i).filter(keep).push(s[i])
        } else {
            s.take(i).filter(keep)
        }),
{
    reveal(Seq::filter);
    assert(s.take(i + 1).drop_last() =~= s.take(i));
}

/// What a sequence holds once an element is put at its end.
pub(crate) proof fn lemma_contains_push<T>(s: Seq<T>, x: T)
    ensures
        forall|y: T| #[trigger] s.push(x).contains(y) <==> s.contains(y) || y == x,
{
    assert forall|y: T| #[trigger] s.push(x).contains(y) <==> s.contains(y) || y == x by {
        if s.contains(y) {
            let i = choose|i: int| 0 <= i < s.len() && s[i] == y;
            assert(s.push(x)[i] == y);
        }
        if y == x {
            assert(s.push(x)[s.len() as int] == y);
        }
    }
}

/// A backup that is cancelled leaves no trace: what was registered under a fresh ID goes, and
/// nothing else does.
pub proof fn law_cancelled_backup_leaves_no_trace(
    h: HandlerView,
    backup: Seq<char>,
    order: OrderRequest,
    sl_born: Creation,
    tp_born: Creation,
)
    requires
        !h.by_primary.contains_key(backup),
        !h.entries.contains_key(placeholder_of(ExitLegType::StopLoss, backup)),
        !h.entries.contains_key(placeholder_of(ExitLegType::TakeProfit, backup)),
    ensures
        h.registered(
            backup,
            order,
            sl_born,
            tp_born,
        ).without_primary(backup) == h,
{
    let sl_id = placeholder_of(ExitLegType::StopLoss, backup);
    let tp_id = placeholder_of(ExitLegType::TakeProfit, backup);
    let full = h.registered(
        backup,
        order,
        sl_born,
        tp_born,
    );
    let ids = full.placeholders(backup);
    if order.stop_loss is Some {
        assert(ids[0] == sl_id);
    }
    if order.take_profit is Some {
        assert(ids[ids.len() - 1] == tp_id);
    }
    assert(full.without_primary(backup).entries =~= h.entries);
    assert(full.without_primary(backup).by_primary =~= h.by_primary);
}

/// Two legs of an order that are registered together are each other's siblings, and wait for
/// the fills of that order.
pub proof fn law_registered_legs_are_siblings(
    h: HandlerView,
    primary: Seq<char>,
    order: OrderRequest,
    sl_born: Creation,
    tp_born: Creation,
)
    requires
        order.stop_loss is Some,
        order.take_profit is Some,
    ensures
        ({
            let sl_id = placeholder_of(ExitLegType::StopLoss, primary);
            let tp_id = placeholder_of(ExitLegType::TakeProfit, primary);
            let full = h.registered(
                primary,
                order,
                sl_born,
                tp_born,
            );
            &&& full.entries[sl_id].sibling_id == Some(tp_id)
            &&& full.entries[tp_id].sibling_id == Some(sl_id)
            &&& full.entries[sl_id].status is Pending
            &&& full.entries[tp_id].status is Pending
            &&& full.has_pending(primary)
        }),
{
    let full = h.registered(
        primary,
        order,
        sl_born,
        tp_born,
    );
    law_placeholder_id_round_trip(
        ExitLegType::StopLoss,
        primary,
        ExitLegType::TakeProfit,
        primary,
    );
    let ids = full.placeholders(primary);
    assert(ids.last() == placeholder_of(ExitLegType::TakeProfit, primary));
    assert(full.entries.contains_key(ids[ids.len() - 1]));
}

} // verus!
