//! Entry↔exit links reported by brokers that manage brackets natively.
//!
//! Alpaca reports its bracket legs as a `legs` array on the entry order; Saxo
//! reports them as `RelatedOpenOrders`. In both cases the link only ever points
//! *down*: a leg fetched or streamed on its own carries no reference back to the
//! entry it protects. An adapter therefore has to remember the link at the one
//! moment it is visible — when it translates an entry that declares legs — and
//! answer from that record afterwards.
//!
//! This is the native-bracket counterpart to the exit handler's tracking of
//! the legs the gateway synthesizes itself, and it follows the same lifetime
//! rule: the link is dropped once the leg resolves.

use vstd::prelude::*;
use crate::correlation::look_up;
use crate::table::Table;
use crate::text::opt_text;

verus! {

/// Records which entry order each broker-native exit leg belongs to.
///
/// Held in memory only. A restart, or a leg first seen before its entry, reads
/// back `None` until the entry is observed again; the gateway then falls back to
/// reporting no link rather than guessing one.
pub struct BracketLinks {
    by_exit_order: Table<String>,
}

impl View for BracketLinks {
    type V = Map<Seq<char>, Seq<char>>;

    /// The entry order of each exit order.
    closed spec fn view(&self) -> Map<Seq<char>, Seq<char>> {
        self.by_exit_order@.map_values(|id: String| id@)
    }
}

impl BracketLinks {
    /// The table is intact.
    pub closed spec fn wf(self) -> bool {
        self.by_exit_order.wf()
    }

    /// Create an empty set of links.
    pub fn new() -> (links: BracketLinks)
        ensures
            links.wf(),
            links@ == Map::<Seq<char>, Seq<char>>::empty(),
    {
        let links = BracketLinks { by_exit_order: Table::new() };
        assert(links@ =~= Map::<Seq<char>, Seq<char>>::empty());
        links
    }

    /// Record that `exit_order_id` exits `parent_order_id`.
    pub fn record(&mut self, exit_order_id: &str, parent_order_id: &str)
        requires
            old(self).wf(),
        ensures
            final(self).wf(),
            final(self)@ == old(self)@.insert(exit_order_id@, parent_order_id@),
    {
        let ghost before = self@;
        let _ = self.by_exit_order.insert(exit_order_id.to_owned(), parent_order_id.to_owned());
        assert(self@ =~= before.insert(exit_order_id@, parent_order_id@));
    }

    /// The entry order `order_id` exits, if one has been recorded.
    pub fn parent_of(&self, order_id: &str) -> (parent: Option<String>)
        requires
            self.wf(),
        ensures
            opt_text(parent) == look_up(self@, order_id@),
    {
        match self.by_exit_order.get(order_id) {
            Some(parent) => Some(parent.clone()),
            None => None,
        }
    }

    /// Forget the link for a leg that has reached a terminal state.
    ///
    /// Callers resolve the parent *before* releasing, so the response reporting
    /// the terminal state still carries the link — that event is exactly when a
    /// strategy needs to know which entry the leg closed.
    pub fn release(&mut self, order_id: &str)
        requires
            old(self).wf(),
        ensures
            final(self).wf(),
            final(self)@ == old(self)@.remove(order_id@),
    {
        let ghost before = self@;
        let _ = self.by_exit_order.remove(order_id);
        assert(self@ =~= before.remove(order_id@));
    }
}

impl Default for BracketLinks {
    fn default() -> (links: BracketLinks)
        ensures
            links.wf(),
            links@ == Map::<Seq<char>, Seq<char>>::empty(),
    {
        BracketLinks::new()
    }
}

/// A link that was recorded is read back until the leg is released, whatever is recorded of
/// other legs.
pub proof fn law_link_is_read_back(
    links: Map<Seq<char>, Seq<char>>,
    leg: Seq<char>,
    parent: Seq<char>,
    other: Seq<char>,
    other_parent: Seq<char>,
)
    requires
        other != leg,
    ensures
        look_up(links.insert(leg, parent), leg) == Some(parent),
        look_up(links.insert(leg, parent).insert(other, other_parent), leg) == Some(parent),
        look_up(links.insert(leg, parent).remove(other), leg) == Some(parent),
        look_up(links.insert(leg, parent).remove(leg), leg) is None,
{
}

} // verus!
