//! Registry for per-adapter `ExitHandler` instances.
//!
//! Provides centralized access to `ExitHandler` instances from all registered adapters,
//! for periodic order status checks and cleanup.

use vstd::prelude::*;
use crate::models::TradingPlatform;
use crate::models::platform::law_header_names_platform;
use crate::table::Table;
use super::handler::{ExitHandler, HandlerView};

verus! {

/// Registry for per-adapter `ExitHandler` instances.
///
/// This allows services to walk over all registered `ExitHandler` instances without needing
/// direct adapter references.
pub struct ExitHandlerRegistry {
    handlers: Table<(TradingPlatform, ExitHandler)>,
}

/// The number of entries of several handlers.
pub open spec fn pending_total(handlers: Seq<HandlerView>) -> nat
    decreases handlers.len(),
{
    if handlers.len() == 0 {
        0
    } else {
        pending_total(handlers.drop_last()) + handlers.last().entries.len()
    }
}

/// The number of primary orders of several handlers.
pub open spec fn primary_total(handlers: Seq<HandlerView>) -> nat
    decreases handlers.len(),
{
    if handlers.len() == 0 {
        0
    } else {
        primary_total(handlers.drop_last()) + handlers.last().by_primary.len()
    }
}

/// Different platforms have different headers.
proof fn lemma_headers_differ(a: TradingPlatform, b: TradingPlatform)
    ensures
        a.spec_header() == b.spec_header() ==> a == b,
{
    law_header_names_platform(a);
    law_header_names_platform(b);
}

proof fn lemma_totals_grow(handlers: Seq<HandlerView>, n: int)
    requires
        0 <= n <= handlers.len(),
    ensures
        pending_total(handlers.take(n)) <= pending_total(handlers),
        primary_total(handlers.take(n)) <= primary_total(handlers),
    decreases handlers.len(),
{
    if n < handlers.len() {
        assert(handlers.drop_last().take(n) =~= handlers.take(n));
        lemma_totals_grow(handlers.drop_last(), n);
    } else {
        assert(handlers.take(n) =~= handlers);
    }
}

impl ExitHandlerRegistry {
    /// Every handler is intact and found under its own platform.
    pub closed spec fn wf(self) -> bool {
        &&& self.handlers.wf()
        &&& forall|key: Seq<char>| #[trigger]
            self.handlers@.contains_key(key) ==> key == self.handlers@[key].0.spec_header()
                && self.handlers@[key].1.wf()
    }

    /// The handler registered for a platform.
    pub closed spec fn handler_of(self, platform: TradingPlatform) -> Option<ExitHandler> {
        if self.handlers@.contains_key(platform.spec_header()) {
            Some(self.handlers@[platform.spec_header()].1)
        } else {
            None
        }
    }

    /// The registered handlers with their platforms, in the order in which they are walked.
    pub closed spec fn rows(self) -> Seq<(TradingPlatform, ExitHandler)> {
        self.handlers.keys().map_values(|key: Seq<char>| self.handlers@[key])
    }

    /// What the registered handlers hold.
    pub open spec fn states(self) -> Seq<HandlerView> {
        self.rows().map_values(|row: (TradingPlatform, ExitHandler)| row.1@)
    }

    /// A walk meets exactly the registered handlers, each once.
    pub proof fn lemma_rows(self)
        requires
            self.wf(),
        ensures
            forall|i: int|
                0 <= i < self.rows().len() ==> (#[trigger] self.rows()[i]).1.wf()
                    && self.handler_of(self.rows()[i].0) == Some(self.rows()[i].1),
            forall|platform: TradingPlatform|
                #![trigger self.handler_of(platform)]
                self.handler_of(platform) is Some ==> exists|i: int|
                    0 <= i < self.rows().len() && (#[trigger] self.rows()[i]).0 == platform,
            forall|i: int, j: int|
                0 <= i < j < self.rows().len() ==> (#[trigger] self.rows()[i]).0 != (
                #[trigger] self.rows()[j]).0,
    {
        self.handlers.lemma_rows();
        let keys = self.handlers.keys();
        assert forall|i: int| 0 <= i < self.rows().len() implies (#[trigger] self.rows()[i]).1.wf()
            && self.handler_of(self.rows()[i].0) == Some(self.rows()[i].1) by {
            assert(self.handlers@.contains_key(keys[i]));
        }
        assert forall|platform: TradingPlatform|
            #![trigger self.handler_of(platform)]
            self.handler_of(platform) is Some implies exists|i: int|
            0 <= i < self.rows().len() && (#[trigger] self.rows()[i]).0 == platform by {
            let key = platform.spec_header();
            assert(self.handlers@.contains_key(key));
            assert(keys.contains(key));
            let i = choose|i: int| 0 <= i < keys.len() && keys[i] == key;
            lemma_headers_differ(platform, self.rows()[i].0);
            assert(self.rows()[i].0 == platform);
        }
        assert forall|i: int, j: int| 0 <= i < j < self.rows().len() implies (
        #[trigger] self.rows()[i]).0 != (#[trigger] self.rows()[j]).0 by {
            assert(self.handlers@.contains_key(keys[i]));
            assert(self.handlers@.contains_key(keys[j]));
        }
    }

    /// Create a new empty registry.
    pub fn new() -> (r: ExitHandlerRegistry)
        ensures
            r.wf(),
            r.rows().len() == 0,
            forall|platform: TradingPlatform| #[trigger] r.handler_of(platform) is None,
    {
        ExitHandlerRegistry { handlers: Table::new() }
    }

    /// Register an `ExitHandler` for a platform.
    ///
    /// If a handler was already registered for this platform, it is replaced.
    pub fn register(&mut self, platform: TradingPlatform, handler: ExitHandler)
        requires
            old(self).wf(),
            handler.wf(),
        ensures
            final(self).wf(),
            final(self).handler_of(platform) == Some(handler),
            forall|other: TradingPlatform|
                other != platform ==> #[trigger] final(self).handler_of(other) == old(self).handler_of(other),
            final(self).rows().len() == old(self).rows().len() + (if old(self).handler_of(
                platform,
            ) is Some {
                0int
            } else {
                1int
            }),
    {
        let ghost before = *self;
        let _ = self.handlers.insert(platform.header_value().to_owned(), (platform, handler));
        proof {
            assert forall|other: TradingPlatform| other != platform implies #[trigger] self.handler_of(
                other,
            ) == before.handler_of(other) by {
                lemma_headers_differ(platform, other);
            }
        }
    }

    /// Get the `ExitHandler` for a platform.
    pub fn get(&self, platform: &TradingPlatform) -> (handler: Option<&ExitHandler>)
        requires
            self.wf(),
        ensures
            match handler {
                Some(h) => self.handler_of(*platform) == Some(*h) && h.wf(),
                None => self.handler_of(*platform) is None,
            },
    {
        match self.handlers.get(platform.header_value()) {
            Some(pair) => Some(&pair.1),
            None => None,
        }
    }

    /// Takes the `ExitHandler` of a platform out, so that it can be worked with and
    /// registered again.
    pub fn take(&mut self, platform: &TradingPlatform) -> (handler: Option<ExitHandler>)
        requires
            old(self).wf(),
        ensures
            final(self).wf(),
            handler == old(self).handler_of(*platform),
            handler matches Some(h) ==> h.wf(),
            final(self).handler_of(*platform) is None,
            forall|other: TradingPlatform|
                other != *platform ==> #[trigger] final(self).handler_of(other) == old(self).handler_of(other),
    {
        let ghost before = *self;
        let taken = self.handlers.remove(platform.header_value());
        proof {
            assert forall|other: TradingPlatform| other != *platform implies #[trigger] self.handler_of(
                other,
            ) == before.handler_of(other) by {
                lemma_headers_differ(*platform, other);
            }
            assert(forall|key: Seq<char>| #[trigger]
                self.handlers@.contains_key(key) ==> before.handlers@.contains_key(key));
        }
        match taken {
            Some((_, handler)) => Some(handler),
            None => None,
        }
    }

    /// Get all registered handlers.
    pub fn all(&self) -> (list: Vec<(TradingPlatform, &ExitHandler)>)
        requires
            self.wf(),
        ensures
            list@.len() == self.rows().len(),
            forall|i: int|
                0 <= i < list@.len() ==> (#[trigger] list@[i]).0 == self.rows()[i].0 && *list@[i].1
                    == self.rows()[i].1,
    {
        let n: usize = self.handlers.len();
        let mut list: Vec<(TradingPlatform, &ExitHandler)> = Vec::new();
        let mut i: usize = 0;
        while i < n
            invariant
                i <= n,
                self.wf(),
                n == self.handlers.keys().len(),
                list@.len() == i,
                forall|j: int|
                    0 <= j < i ==> (#[trigger] list@[j]).0 == self.rows()[j].0 && *list@[j].1
                        == self.rows()[j].1,
            decreases n - i,
        {
            let row = self.handlers.value_at(i);
            list.push((row.0, &row.1));
            i = i + 1;
        }
        list
    }

    /// Get the number of registered handlers.
    pub fn len(&self) -> (n: usize)
        requires
            self.wf(),
        ensures
            n == self.rows().len(),
    {
        self.handlers.len()
    }

    /// Check if the registry is empty.
    pub fn is_empty(&self) -> (empty: bool)
        requires
            self.wf(),
        ensures
            empty == (self.rows().len() == 0),
    {
        self.handlers.len() == 0
    }

    /// Get the total count of pending entries across all handlers.
    pub fn total_pending_count(&self) -> (total: usize)
        requires
            self.wf(),
            pending_total(self.states()) <= usize::MAX,
        ensures
            total == pending_total(self.states()),
    {
        let n: usize = self.handlers.len();
        let mut total: usize = 0;
        let mut i: usize = 0;
        while i < n
            invariant
                i <= n,
                self.wf(),
                n == self.handlers.keys().len(),
                pending_total(self.states()) <= usize::MAX,
                total == pending_total(self.states().take(i as int)),
            decreases n - i,
        {
            proof {
                let longer = self.states().take(i + 1);
                assert(longer.drop_last() =~= self.states().take(i as int));
                lemma_totals_grow(self.states(), i + 1);
                self.lemma_rows();
                assert(self.rows()[i as int].1.wf());
            }
            let row = self.handlers.value_at(i);
            total = total + row.1.pending_count();
            i = i + 1;
        }
        assert(self.states().take(n as int) =~= self.states());
        total
    }

    /// Get the total count of primary orders with pending entries across all handlers.
    pub fn total_primary_orders_count(&self) -> (total: usize)
        requires
            self.wf(),
            primary_total(self.states()) <= usize::MAX,
        ensures
            total == primary_total(self.states()),
    {
        let n: usize = self.handlers.len();
        let mut total: usize = 0;
        let mut i: usize = 0;
        while i < n
            invariant
                i <= n,
                self.wf(),
                n == self.handlers.keys().len(),
                primary_total(self.states()) <= usize::MAX,
                total == primary_total(self.states().take(i as int)),
            decreases n - i,
        {
            proof {
                let longer = self.states().take(i + 1);
                assert(longer.drop_last() =~= self.states().take(i as int));
                lemma_totals_grow(self.states(), i + 1);
                self.lemma_rows();
                assert(self.rows()[i as int].1.wf());
            }
            let row = self.handlers.value_at(i);
            total = total + row.1.primary_orders_count();
            i = i + 1;
        }
        assert(self.states().take(n as int) =~= self.states());
        total
    }
}

impl Default for ExitHandlerRegistry {
    fn default() -> (r: ExitHandlerRegistry)
        ensures
            r.wf(),
            r.rows().len() == 0,
            forall|platform: TradingPlatform| #[trigger] r.handler_of(platform) is None,
    {
        ExitHandlerRegistry::new()
    }
}

/// The totals over several handlers are the sums of what each holds: another handler adds its
/// entries and its primary orders.
pub proof fn law_totals_are_sums(handlers: Seq<HandlerView>, handler: HandlerView)
    ensures
        pending_total(Seq::empty()) == 0,
        primary_total(Seq::empty()) == 0,
        pending_total(handlers.push(handler)) == pending_total(handlers) + handler.entries.len(),
        primary_total(handlers.push(handler)) == primary_total(handlers) + handler.by_primary.len(),
{
    assert(handlers.push(handler).drop_last() =~= handlers);
}

} // verus!
