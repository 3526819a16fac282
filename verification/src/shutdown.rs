//! What is told and kept of exit orders when the gateway shuts down.
//!
//! Operators learn which positions may be unprotected, and the exit entries that are not
//! settled are kept for the next start.

use vstd::prelude::*;
use crate::decimal::Decimal;
use crate::exit_management::handler::{ExitHandler, failed_info, ids_of, order_ids};
use crate::exit_management::laws::holds_orders;
use crate::exit_management::registry::ExitHandlerRegistry;
use crate::exit_management::types::{
    ActualOrder, ExitEntry, ExitEntryStatus, ExitEntryView, ExitLegType, FailedExitView, StatusView,
};
use crate::models::{Side, TradingPlatform};
use crate::text::{join2, join4, texts};
use crate::time::{Timestamp, display_time, displayed_time};

verus! {

// ---------------------------------------------------------------------------------------
// Report
// ---------------------------------------------------------------------------------------

/// A time as it is written in a report; one out of the calendar's range is left out.
pub open spec fn shown_time(t: Timestamp) -> Seq<char> {
    match displayed_time(t.secs, t.nanos) {
        Some(text) => text,
        None => Seq::empty(),
    }
}

fn show_time(t: &Timestamp) -> (text: String)
    ensures
        text@ == shown_time(*t),
{
    match display_time(t.secs, t.nanos) {
        Some(text) => text,
        None => String::new(),
    }
}

/// What the report says of a pending exit.
pub open spec fn pending_line(
    platform: TradingPlatform,
    info: (Seq<char>, ExitLegType, Timestamp),
) -> Seq<char> {
    "  PENDING: platform="@ + platform.spec_header() + ", primary_order="@ + info.0 + ", type="@
        + info.1.spec_name() + ", created="@ + shown_time(info.2)
}

/// What the report says of a failed exit.
pub open spec fn failed_line(platform: TradingPlatform, info: FailedExitView) -> Seq<char> {
    "  FAILED: platform="@ + platform.spec_header() + ", primary_order="@ + info.primary_order_id
        + ", symbol="@ + info.symbol + ", type="@ + info.order_type.spec_name() + ", error="@
        + info.error
}

/// The pending exits of a handler.
pub open spec fn pending_infos(handler: ExitHandler) -> Seq<(Seq<char>, ExitLegType, Timestamp)> {
    handler.rows().filter(
        |id: Seq<char>| handler@.entries[id].status.is_pending(),
    ).map_values(
        |id: Seq<char>|
            (
                handler@.entries[id].primary_order_id,
                handler@.entries[id].order_type,
                handler@.entries[id].created_at_utc,
            ),
    )
}

/// The failed exits of a handler.
pub open spec fn failed_infos(handler: ExitHandler) -> Seq<FailedExitView> {
    handler.rows().filter(|id: Seq<char>| handler@.entries[id].status is Failed).map_values(
        |id: Seq<char>| failed_info(handler@.entries[id]),
    )
}

/// The number of pending exits of several handlers.
pub open spec fn pending_number(rows: Seq<(TradingPlatform, ExitHandler)>) -> nat
    decreases rows.len(),
{
    if rows.len() == 0 {
        0
    } else {
        pending_number(rows.drop_last()) + pending_infos(rows.last().1).len()
    }
}

/// The number of failed exits of several handlers.
pub open spec fn failed_number(rows: Seq<(TradingPlatform, ExitHandler)>) -> nat
    decreases rows.len(),
{
    if rows.len() == 0 {
        0
    } else {
        failed_number(rows.drop_last()) + failed_infos(rows.last().1).len()
    }
}

/// The lines of a report on several handlers: of each handler first the pending exits, and
/// then the failed ones.
pub open spec fn report_lines(rows: Seq<(TradingPlatform, ExitHandler)>) -> Seq<Seq<char>>
    decreases rows.len(),
{
    if rows.len() == 0 {
        Seq::empty()
    } else {
        report_lines(rows.drop_last()) + handler_lines(rows.last().0, rows.last().1)
    }
}

/// The lines of a report on one handler.
pub open spec fn handler_lines(platform: TradingPlatform, handler: ExitHandler) -> Seq<Seq<char>> {
    pending_infos(handler).map_values(
        |info: (Seq<char>, ExitLegType, Timestamp)| pending_line(platform, info),
    ) + failed_infos(handler).map_values(|info: FailedExitView| failed_line(platform, info))
}

/// A report on the exits that will not be placed.
#[derive(Debug)]
pub struct PendingExitReport {
    /// The number of pending exits.
    pub pending_count: usize,
    /// The number of failed exits.
    pub failed_count: usize,
    /// A line for each exit.
    pub details: Vec<String>,
}

/// Lines that follow each other in one text.
pub open spec fn joined_lines(lines: Seq<Seq<char>>) -> Seq<char>
    decreases lines.len(),
{
    if lines.len() == 0 {
        Seq::empty()
    } else if lines.len() == 1 {
        lines[0]
    } else {
        joined_lines(lines.drop_last()) + "\n"@ + lines.last()
    }
}

impl PendingExitReport {
    /// The number of exits of the report.
    pub fn total(&self) -> (n: usize)
        requires
            self.pending_count + self.failed_count <= usize::MAX,
        ensures
            n == self.pending_count + self.failed_count,
    {
        self.pending_count + self.failed_count
    }

    /// The report as one message.
    pub fn message(&self) -> (text: String)
        ensures
            text@ == "Pending exits will NOT be placed — manual intervention required\n"@
                + joined_lines(texts(self.details@)),
    {
        let lines = &self.details;
        let ghost whole = texts(lines@);
        let mut text = String::new();
        let mut i: usize = 0;
        assert(text@ =~= joined_lines(whole.take(0)));
        while i < lines.len()
            invariant
                i <= lines.len(),
                whole == texts(lines@),
                text@ == joined_lines(whole.take(i as int)),
            decreases lines.len() - i,
        {
            proof {
                assert(whole.take(i + 1).drop_last() =~= whole.take(i as int));
                assert(whole.take(i + 1).last() == lines@[i as int]@);
                if i == 0 {
                    assert(text@ + lines@[i as int]@ =~= lines@[i as int]@);
                }
            }
            if i > 0 {
                text.append("\n");
            }
            text.append(lines[i].as_str());
            i = i + 1;
        }
        assert(whole.take(i as int) =~= whole);
        join2(
            "Pending exits will NOT be placed — manual intervention required\n",
            text.as_str(),
        )
    }
}

/// Reports all pending and failed exit entries, listing each entry's key details.
///
/// If there are none, there is nothing to report.
pub fn log_pending_exits(registry: &ExitHandlerRegistry) -> (report: Option<PendingExitReport>)
    requires
        registry.wf(),
    ensures
        match report {
            Some(r) => report_lines(registry.rows()).len() > 0 && texts(r.details@) == report_lines(
                registry.rows(),
            ) && r.pending_count == pending_number(registry.rows()) && r.failed_count
                == failed_number(registry.rows()) && r.details@.len() == r.pending_count
                + r.failed_count,
            None => report_lines(registry.rows()).len() == 0,
        },
{
    let handlers = registry.all();
    let ghost rows = registry.rows();
    let mut pending_count: usize = 0;
    let mut failed_count: usize = 0;
    let mut details: Vec<String> = Vec::new();
    let mut i: usize = 0;
    proof {
        registry.lemma_rows();
        assert(texts(details@) =~= report_lines(rows.take(0)));
    }
    while i < handlers.len()
        invariant
            i <= handlers.len(),
            rows == registry.rows(),
            handlers@.len() == rows.len(),
            forall|j: int|
                0 <= j < handlers@.len() ==> (#[trigger] handlers@[j]).0 == rows[j].0
                    && *handlers@[j].1 == rows[j].1,
            forall|j: int| 0 <= j < rows.len() ==> (#[trigger] rows[j]).1.wf(),
            texts(details@) == report_lines(rows.take(i as int)),
            pending_count == pending_number(rows.take(i as int)),
            failed_count == failed_number(rows.take(i as int)),
            details@.len() == pending_count + failed_count,
        decreases handlers.len() - i,
    {
        proof {
            assert(rows.take(i + 1).drop_last() =~= rows.take(i as int));
            assert(rows[i as int].1.wf());
        }
        let (pending, failed) = report_handler(handlers[i].0, handlers[i].1, &mut details);
        assert(details.len() == pending_count + failed_count + pending + failed);
        pending_count = pending_count + pending;
        failed_count = failed_count + failed;
        i = i + 1;
    }
    assert(rows.take(i as int) =~= rows);
    assert(texts(details@).len() == details@.len());
    if details.len() > 0 {
        Some(PendingExitReport { pending_count, failed_count, details })
    } else {
        None
    }
}

/// Adds the lines on one handler.
fn report_handler(
    platform: TradingPlatform,
    handler: &ExitHandler,
    details: &mut Vec<String>,
) -> (counts: (usize, usize))
    requires
        handler.wf(),
    ensures
        texts(final(details)@) == texts(old(details)@) + handler_lines(platform, *handler),
        counts.0 == pending_infos(*handler).len(),
        counts.1 == failed_infos(*handler).len(),
        final(details)@.len() == old(details)@.len() + counts.0 + counts.1,
{
    let ghost start = texts(details@);
    let pending = handler.get_pending_entries();
    let ghost waiting = pending_infos(*handler);
    let ghost write_pending = |info: (Seq<char>, ExitLegType, Timestamp)|
        pending_line(platform, info);
    let mut i: usize = 0;
    proof {
        assert(waiting.len() == pending@.len());
        assert(start + waiting.take(0).map_values(write_pending) =~= start);
    }
    while i < pending.len()
        invariant
            i <= pending.len(),
            waiting == pending_infos(*handler),
            waiting.len() == pending@.len(),
            pending@.map_values(
                |i: crate::exit_management::types::ExitEntryInfo|
                    (i.primary_order_id@, i.order_type, i.created_at),
            ) == waiting,
            write_pending == |info: (Seq<char>, ExitLegType, Timestamp)|
                pending_line(platform, info),
            texts(details@) == start + waiting.take(i as int).map_values(write_pending),
        decreases pending.len() - i,
    {
        let ghost before = texts(details@);
        let info = &pending[i];
        assert(waiting[i as int] == (info.primary_order_id@, info.order_type, info.created_at));
        let mut line = join4(
            "  PENDING: platform=",
            platform.header_value(),
            ", primary_order=",
            info.primary_order_id.as_str(),
        );
        line.append(", type=");
        line.append(info.order_type.name());
        line.append(", created=");
        line.append(show_time(&info.created_at).as_str());
        proof {
            assert(line@ == write_pending(waiting[i as int]));
            assert(waiting.take(i + 1).map_values(write_pending) =~= waiting.take(
                i as int,
            ).map_values(write_pending).push(line@));
        }
        details.push(line);
        assert(texts(details@) =~= before.push(line@));
        assert(texts(details@) =~= start + waiting.take(i + 1).map_values(write_pending));
        i = i + 1;
    }
    let failed = handler.get_failed_entries_internal();
    let ghost broken = failed_infos(*handler);
    let ghost write_failed = |info: FailedExitView| failed_line(platform, info);
    let ghost middle = texts(details@);
    let mut k: usize = 0;
    proof {
        assert(waiting.take(i as int) =~= waiting);
        assert(broken.len() == failed@.len());
        assert(middle + broken.take(0).map_values(write_failed) =~= middle);
    }
    while k < failed.len()
        invariant
            k <= failed.len(),
            broken.len() == failed@.len(),
            failed@.map_values(|i: crate::exit_management::types::FailedExitInfo| i@) == broken,
            write_failed == |info: FailedExitView| failed_line(platform, info),
            texts(details@) == middle + broken.take(k as int).map_values(write_failed),
        decreases failed.len() - k,
    {
        let ghost before = texts(details@);
        let info = &failed[k];
        assert(broken[k as int] == info@);
        let mut line = join4(
            "  FAILED: platform=",
            platform.header_value(),
            ", primary_order=",
            info.primary_order_id.as_str(),
        );
        line.append(", symbol=");
        line.append(info.symbol.as_str());
        line.append(", type=");
        line.append(info.order_type.name());
        line.append(", error=");
        line.append(info.error.as_str());
        proof {
            assert(line@ == write_failed(broken[k as int]));
            assert(broken.take(k + 1).map_values(write_failed) =~= broken.take(
                k as int,
            ).map_values(write_failed).push(line@));
        }
        details.push(line);
        assert(texts(details@) =~= before.push(line@));
        assert(texts(details@) =~= middle + broken.take(k + 1).map_values(write_failed));
        k = k + 1;
    }
    proof {
        assert(broken.take(k as int) =~= broken);
        assert(texts(details@) =~= start + handler_lines(platform, *handler));
        assert(texts(details@).len() == details@.len());
        assert(start.len() == old(details)@.len());
    }
    (pending.len(), failed.len())
}

// ---------------------------------------------------------------------------------------
// Snapshot
// ---------------------------------------------------------------------------------------

/// Snapshot of all non-terminal exit entries, written to disk on shutdown.
#[derive(Debug)]
pub struct ExitStateSnapshot {
    /// When the snapshot was taken.
    pub timestamp: Timestamp,
    /// All non-terminal exit entries at time of shutdown.
    pub entries: Vec<ExitStateEntry>,
}

/// A representation of an exit entry for the snapshot file.
#[derive(Debug)]
pub struct ExitStateEntry {
    pub placeholder_id: String,
    pub primary_order_id: String,
    pub symbol: String,
    pub side: Side,
    pub order_type: ExitLegType,
    pub trigger_price: Decimal,
    pub limit_price: Option<Decimal>,
    pub quantity: Decimal,
    pub original_quantity: Decimal,
    pub status: String,
    pub platform: TradingPlatform,
    pub actual_order_ids: Vec<String>,
    pub created_at: Timestamp,
    pub updated_at: Option<Timestamp>,
}

/// What the snapshot keeps of an exit entry.
#[verifier::ext_equal]
pub struct ExitStateView {
    pub placeholder_id: Seq<char>,
    pub primary_order_id: Seq<char>,
    pub symbol: Seq<char>,
    pub side: Side,
    pub order_type: ExitLegType,
    pub trigger_price: Decimal,
    pub limit_price: Option<Decimal>,
    pub quantity: Decimal,
    pub original_quantity: Decimal,
    pub status: Seq<char>,
    pub platform: TradingPlatform,
    pub actual_order_ids: Seq<Seq<char>>,
    pub created_at: Timestamp,
    pub updated_at: Option<Timestamp>,
}

impl View for ExitStateEntry {
    type V = ExitStateView;

    open spec fn view(&self) -> ExitStateView {
        ExitStateView {
            placeholder_id: self.placeholder_id@,
            primary_order_id: self.primary_order_id@,
            symbol: self.symbol@,
            side: self.side,
            order_type: self.order_type,
            trigger_price: self.trigger_price,
            limit_price: self.limit_price,
            quantity: self.quantity,
            original_quantity: self.original_quantity,
            status: self.status@,
            platform: self.platform,
            actual_order_ids: texts(self.actual_order_ids@),
            created_at: self.created_at,
            updated_at: self.updated_at,
        }
    }
}

/// How the snapshot writes the status of an entry.
pub open spec fn saved_status(status: StatusView) -> Seq<char> {
    match status {
        StatusView::Pending => "pending"@,
        StatusView::PartiallyTriggered { .. } => "partially_triggered"@,
        StatusView::Placed { .. } => "placed"@,
        StatusView::Failed { error, .. } => "failed: "@ + error,
        StatusView::Cancelled { reason, .. } => "cancelled: "@ + reason.spec_name(),
        StatusView::Expired { .. } => "expired"@,
    }
}

/// What the snapshot keeps of an entry.
pub open spec fn saved_entry(entry: ExitEntryView) -> ExitStateView {
    ExitStateView {
        placeholder_id: entry.placeholder_id,
        primary_order_id: entry.primary_order_id,
        symbol: entry.symbol,
        side: entry.side,
        order_type: entry.order_type,
        trigger_price: entry.trigger_price,
        limit_price: entry.limit_price,
        quantity: entry.quantity,
        original_quantity: entry.original_quantity,
        status: saved_status(entry.status),
        platform: entry.platform,
        actual_order_ids: order_ids(entry.status.orders()),
        created_at: entry.created_at_utc,
        updated_at: entry.updated_at,
    }
}

impl ExitStateEntry {
    /// Create from an `ExitEntry`.
    pub fn from_exit_entry(entry: &ExitEntry) -> (saved: ExitStateEntry)
        ensures
            saved@ == saved_entry(entry@),
    {
        let status = match &entry.status {
            ExitEntryStatus::Pending => "pending".to_owned(),
            ExitEntryStatus::PartiallyTriggered { .. } => "partially_triggered".to_owned(),
            ExitEntryStatus::Placed { .. } => "placed".to_owned(),
            ExitEntryStatus::Failed { error, .. } => join2("failed: ", error.as_str()),
            ExitEntryStatus::Cancelled { reason, .. } => join2("cancelled: ", reason.name()),
            ExitEntryStatus::Expired { .. } => "expired".to_owned(),
        };
        ExitStateEntry {
            placeholder_id: entry.placeholder_id.clone(),
            primary_order_id: entry.primary_order_id.clone(),
            symbol: entry.symbol.clone(),
            side: entry.side,
            order_type: entry.order_type,
            trigger_price: entry.trigger_price,
            limit_price: entry.limit_price,
            quantity: entry.quantity,
            original_quantity: entry.original_quantity,
            status,
            platform: entry.platform,
            actual_order_ids: ids_of(&ExitHandler::get_actual_orders_from_entry(entry)),
            created_at: entry.created_at_utc,
            updated_at: entry.updated_at,
        }
    }
}

/// The entries of a handler that are not settled.
pub open spec fn live_entries(handler: ExitHandler) -> Seq<ExitEntryView> {
    handler.rows().filter(
        |id: Seq<char>|
            !(handler@.entries[id].status is Cancelled) && !(handler@.entries[id].status is Expired),
    ).map_values(|id: Seq<char>| handler@.entries[id])
}

/// What the snapshot keeps of several handlers.
pub open spec fn saved_entries(rows: Seq<(TradingPlatform, ExitHandler)>) -> Seq<ExitStateView>
    decreases rows.len(),
{
    if rows.len() == 0 {
        Seq::empty()
    } else {
        saved_entries(rows.drop_last()) + live_entries(rows.last().1).map_values(
            |entry: ExitEntryView| saved_entry(entry),
        )
    }
}

/// What several saved entries tell.
pub open spec fn saved_views(entries: Seq<ExitStateEntry>) -> Seq<ExitStateView> {
    entries.map_values(|e: ExitStateEntry| e@)
}

/// Takes the snapshot of the entries that are not settled. If there are none, there is
/// nothing to keep.
pub fn exit_state_snapshot(registry: &ExitHandlerRegistry, now: Timestamp) -> (snapshot: Option<
    ExitStateSnapshot,
>)
    requires
        registry.wf(),
    ensures
        match snapshot {
            Some(s) => s.timestamp == now && saved_entries(registry.rows()).len() > 0
                && saved_views(s.entries@) == saved_entries(registry.rows()),
            None => saved_entries(registry.rows()).len() == 0,
        },
{
    let handlers = registry.all();
    let ghost rows = registry.rows();
    let mut entries: Vec<ExitStateEntry> = Vec::new();
    let mut i: usize = 0;
    proof {
        registry.lemma_rows();
        assert(saved_views(entries@) =~= saved_entries(rows.take(0)));
    }
    while i < handlers.len()
        invariant
            i <= handlers.len(),
            rows == registry.rows(),
            handlers@.len() == rows.len(),
            forall|j: int|
                0 <= j < handlers@.len() ==> (#[trigger] handlers@[j]).0 == rows[j].0
                    && *handlers@[j].1 == rows[j].1,
            forall|j: int| 0 <= j < rows.len() ==> (#[trigger] rows[j]).1.wf(),
            saved_views(entries@) == saved_entries(rows.take(i as int)),
        decreases handlers.len() - i,
    {
        proof {
            assert(rows.take(i + 1).drop_last() =~= rows.take(i as int));
            assert(rows[i as int].1.wf());
        }
        save_handler(handlers[i].1, &mut entries);
        i = i + 1;
    }
    assert(rows.take(i as int) =~= rows);
    assert(saved_views(entries@).len() == entries@.len());
    if entries.len() == 0 {
        None
    } else {
        Some(ExitStateSnapshot { timestamp: now, entries })
    }
}

/// Adds the entries of one handler.
fn save_handler(handler: &ExitHandler, entries: &mut Vec<ExitStateEntry>)
    requires
        handler.wf(),
    ensures
        saved_views(final(entries)@) == saved_views(old(entries)@) + live_entries(
            *handler,
        ).map_values(|entry: ExitEntryView| saved_entry(entry)),
{
    let live = handler.get_non_terminal_entries();
    let ghost start = saved_views(entries@);
    let ghost kept = live_entries(*handler);
    let ghost save = |entry: ExitEntryView| saved_entry(entry);
    let mut i: usize = 0;
    proof {
        assert(kept.len() == live@.len());
        assert(start + kept.take(0).map_values(save) =~= start);
    }
    while i < live.len()
        invariant
            i <= live.len(),
            kept.len() == live@.len(),
            live@.map_values(|e: ExitEntry| e@) == kept,
            save == |entry: ExitEntryView| saved_entry(entry),
            saved_views(entries@) == start + kept.take(i as int).map_values(save),
        decreases live.len() - i,
    {
        let ghost before = saved_views(entries@);
        assert(kept[i as int] == live@[i as int]@);
        let saved = ExitStateEntry::from_exit_entry(&live[i]);
        proof {
            assert(saved@ == save(kept[i as int]));
            assert(kept.take(i + 1).map_values(save) =~= kept.take(i as int).map_values(save).push(
                saved@,
            ));
        }
        entries.push(saved);
        assert(saved_views(entries@) =~= before.push(saved@));
        assert(saved_views(entries@) =~= start + kept.take(i + 1).map_values(save));
        i = i + 1;
    }
    assert(kept.take(i as int) =~= kept);
}

/// The snapshot leaves no entry of a handler out that is not settled: neither those that
/// wait for fills nor those that failed.
pub proof fn law_snapshot_keeps_unsettled(handler: ExitHandler, id: Seq<char>)
    requires
        handler.rows().contains(id),
        handler@.entries[id].status.is_pending() || handler@.entries[id].status is Failed
            || handler@.entries[id].status is Placed,
    ensures
        live_entries(handler).contains(handler@.entries[id]),
{
    let live = |id: Seq<char>|
        !(handler@.entries[id].status is Cancelled) && !(handler@.entries[id].status is Expired);
    let told = |id: Seq<char>| handler@.entries[id];
    let kept = handler.rows().filter(live);
    assert(live(id));
    lemma_filter_keeps(handler.rows(), live, id);
    let i = choose|i: int| 0 <= i < kept.len() && kept[i] == id;
    assert(live_entries(handler)[i] == handler@.entries[id]);
}

proof fn lemma_filter_keeps<T>(s: Seq<T>, keep: spec_fn(T) -> bool, x: T)
    requires
        s.contains(x),
        keep(x),
    ensures
        s.filter(keep).contains(x),
    decreases s.len(),
{
    reveal(Seq::filter);
    let rest = s.drop_last().filter(keep);
    if s.last() == x {
        assert(s.filter(keep)[rest.len() as int] == x);
    } else {
        let i = choose|i: int| 0 <= i < s.len() && s[i] == x;
        assert(s.drop_last()[i] == x);
        lemma_filter_keeps(s.drop_last(), keep, x);
        let j = choose|j: int| 0 <= j < rest.len() && rest[j] == x;
        assert(s.filter(keep)[j] == x);
    }
}

/// What is kept of an entry is its own: what it exits, at which price and for how much, the orders
/// it has, and its status in words.
pub proof fn law_saved_entry_is_the_entrys(entry: ExitEntryView, orders: Seq<ActualOrder>)
    ensures
        ({
            let saved = saved_entry(entry);
            &&& saved.placeholder_id == entry.placeholder_id
            &&& saved.primary_order_id == entry.primary_order_id
            &&& saved.symbol == entry.symbol
            &&& saved.side == entry.side
            &&& saved.order_type == entry.order_type
            &&& saved.trigger_price == entry.trigger_price
            &&& saved.limit_price == entry.limit_price
            &&& saved.quantity == entry.quantity
            &&& saved.original_quantity == entry.original_quantity
            &&& saved.platform == entry.platform
            &&& saved.created_at == entry.created_at_utc
            &&& saved.updated_at == entry.updated_at
            &&& holds_orders(entry.status, orders) ==> saved.actual_order_ids == order_ids(orders)
            &&& entry.status is Pending ==> saved.status == "pending"@
            &&& entry.status is PartiallyTriggered ==> saved.status == "partially_triggered"@
            &&& entry.status is Placed ==> saved.status == "placed"@
            &&& entry.status matches StatusView::Failed { error, .. } ==> saved.status == "failed: "@
                + error
            &&& entry.status is Expired ==> saved.status == "expired"@
        }),
{
}

/// Every entry that is neither cancelled nor expired is kept, whichever handler has it, and no
/// other.
pub proof fn law_every_unsettled_entry_is_saved(
    rows: Seq<(TradingPlatform, ExitHandler)>,
    i: int,
    id: Seq<char>,
)
    requires
        0 <= i < rows.len(),
        rows[i].1.rows().contains(id),
    ensures
        !(rows[i].1@.entries[id].status is Cancelled) && !(rows[i].1@.entries[id].status is Expired)
            ==> saved_entries(rows).contains(saved_entry(rows[i].1@.entries[id])),
    decreases rows.len(),
{
    let handler = rows[i].1;
    let entry = handler@.entries[id];
    if !(entry.status is Cancelled) && !(entry.status is Expired) {
        let rest = rows.drop_last();
        let before = saved_entries(rest);
        let all = saved_entries(rows);
        let told = saved_entry(entry);
        if i < rest.len() {
            assert(rest[i] == rows[i]);
            law_every_unsettled_entry_is_saved(rest, i, id);
            let k = choose|k: int| 0 <= k < before.len() && before[k] == told;
            assert(all[k] == told);
        } else {
            let unsettled = |x: Seq<char>|
                !(handler@.entries[x].status is Cancelled) && !(handler@.entries[x].status is Expired);
            lemma_filter_keeps(handler.rows(), unsettled, id);
            let kept = handler.rows().filter(unsettled);
            let k = choose|k: int| 0 <= k < kept.len() && kept[k] == id;
            assert(live_entries(handler)[k] == entry);
            assert(all[before.len() + k] == told);
        }
    }
}

/// Only entries that are neither cancelled nor expired are kept.
pub proof fn law_settled_entries_are_not_saved(handler: ExitHandler, k: int)
    requires
        0 <= k < live_entries(handler).len(),
    ensures
        !(live_entries(handler)[k].status is Cancelled),
        !(live_entries(handler)[k].status is Expired),
{
    let unsettled = |x: Seq<char>|
        !(handler@.entries[x].status is Cancelled) && !(handler@.entries[x].status is Expired);
    handler.rows().lemma_filter_pred(unsettled, k);
}

/// The report has a line for each exit that waits for fills and for each that failed, which names
/// the platform, the primary order and the leg, and it counts them.
pub proof fn law_every_open_exit_is_reported(
    platform: TradingPlatform,
    handler: ExitHandler,
    id: Seq<char>,
)
    requires
        handler.rows().contains(id),
    ensures
        ({
            let entry = handler@.entries[id];
            let lines = handler_lines(platform, handler);
            &&& entry.status is Pending || entry.status is PartiallyTriggered ==> lines.contains(
                "  PENDING: platform="@ + platform.spec_header() + ", primary_order="@
                    + entry.primary_order_id + ", type="@ + entry.order_type.spec_name()
                    + ", created="@ + shown_time(entry.created_at_utc),
            )
            &&& entry.status matches StatusView::Failed { error, .. } ==> lines.contains(
                "  FAILED: platform="@ + platform.spec_header() + ", primary_order="@
                    + entry.primary_order_id + ", symbol="@ + entry.symbol + ", type="@
                    + entry.order_type.spec_name() + ", error="@ + error,
            )
            &&& lines.len() == pending_infos(handler).len() + failed_infos(handler).len()
        }),
{
    let entry = handler@.entries[id];
    let lines = handler_lines(platform, handler);
    let waits = |x: Seq<char>| handler@.entries[x].status.is_pending();
    let failed = |x: Seq<char>| handler@.entries[x].status is Failed;
    if entry.status is Pending || entry.status is PartiallyTriggered {
        lemma_filter_keeps(handler.rows(), waits, id);
        let kept = handler.rows().filter(waits);
        let k = choose|k: int| 0 <= k < kept.len() && kept[k] == id;
        let info = (entry.primary_order_id, entry.order_type, entry.created_at_utc);
        assert(pending_infos(handler)[k] == info);
        assert(lines[k] == pending_line(platform, info));
    }
    if entry.status is Failed {
        lemma_filter_keeps(handler.rows(), failed, id);
        let kept = handler.rows().filter(failed);
        let k = choose|k: int| 0 <= k < kept.len() && kept[k] == id;
        assert(failed_infos(handler)[k] == failed_info(entry));
        assert(lines[pending_infos(handler).len() + k] == failed_line(platform, failed_info(entry)));
    }
}

/// The lines and the numbers of a report on several handlers are those of each, one after the
/// other.
pub proof fn law_report_goes_through_all_handlers(
    rows: Seq<(TradingPlatform, ExitHandler)>,
    platform: TradingPlatform,
    handler: ExitHandler,
)
    ensures
        report_lines(Seq::empty()).len() == 0,
        report_lines(rows.push((platform, handler))) == report_lines(rows) + handler_lines(
            platform,
            handler,
        ),
        pending_number(Seq::empty()) == 0,
        pending_number(rows.push((platform, handler))) == pending_number(rows) + pending_infos(
            handler,
        ).len(),
        failed_number(Seq::empty()) == 0,
        failed_number(rows.push((platform, handler))) == failed_number(rows) + failed_infos(
            handler,
        ).len(),
{
    assert(rows.push((platform, handler)).drop_last() =~= rows);
}

/// Lines that are joined stand one below the other: the next begins behind a line break.
pub proof fn law_lines_stand_below_each_other(lines: Seq<Seq<char>>, line: Seq<char>)
    ensures
        joined_lines(seq![line]) == line,
        lines.len() > 0 ==> joined_lines(lines.push(line)) == joined_lines(lines) + "\n"@ + line,
{
    assert(lines.push(line).drop_last() =~= lines);
}

} // verus!
