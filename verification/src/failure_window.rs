//! The rule that the circuit breakers share.
//!
//! Failures are counted within a window of time. Once enough of them fall into it, the
//! circuit opens, and it stays open until it is reset by hand. A reset is refused for a while
//! after the last one, so that the breaker cannot be defeated in a tight loop.
//!
//! Times are nanoseconds since some fixed point.

use vstd::prelude::*;
use std::collections::VecDeque;
use crate::lists::lemma_filter_all;
use crate::time::Duration;

verus! {

/// Why a reset is refused.
pub const COOLDOWN_MESSAGE: &'static str =
    "Circuit breaker re-tripped within cooldown period. Investigate the underlying failure before resetting again.";

/// How long a reset is refused after the last one: 60 seconds.
pub const RESET_COOLDOWN_NANOS: u128 = 60_000_000_000;

/// What a breaker remembers.
#[verifier::ext_equal]
pub struct BreakerView {
    /// How many failures open the circuit.
    pub threshold: nat,
    /// How long a failure counts.
    pub window: nat,
    /// When the failures that count happened, the oldest first.
    pub failures: Seq<u128>,
    /// Whether the circuit is open.
    pub open: bool,
    /// When the breaker was last reset.
    pub last_reset: Option<u128>,
}

/// The time from an earlier moment to a later one; none where the first is not later.
pub open spec fn elapsed(now: u128, since: u128) -> nat {
    if now >= since {
        (now - since) as nat
    } else {
        0
    }
}

/// The failures without those at the front that have left the window.
pub open spec fn pruned(failures: Seq<u128>, now: u128, window: nat) -> Seq<u128>
    decreases failures.len(),
{
    if failures.len() > 0 && elapsed(now, failures[0]) > window {
        pruned(failures.drop_first(), now, window)
    } else {
        failures
    }
}

impl BreakerView {
    /// A breaker that has seen nothing.
    pub open spec fn fresh(threshold: nat, window: nat) -> BreakerView {
        BreakerView { threshold, window, failures: Seq::empty(), open: false, last_reset: None }
    }

    /// The breaker after a failure: the circuit opens once enough failures count.
    pub open spec fn after_failure(self, now: u128) -> BreakerView {
        let failures = pruned(self.failures, now, self.window).push(now);
        BreakerView { failures, open: self.open || failures.len() >= self.threshold, ..self }
    }

    /// How many failures count at a time: those that have not left the window.
    pub open spec fn count_at(self, now: u128) -> nat {
        pruned(self.failures, now, self.window).len()
    }

    /// Whether a reset is refused.
    pub open spec fn cooling_down(self, now: u128) -> bool {
        self.last_reset matches Some(last) && elapsed(now, last) < RESET_COOLDOWN_NANOS
    }

    /// The breaker after a reset that is not refused.
    pub open spec fn after_reset(self, now: u128) -> BreakerView {
        BreakerView { failures: Seq::empty(), open: false, last_reset: Some(now), ..self }
    }
}

/// The state of a breaker.
#[derive(Debug)]
pub struct FailureWindow {
    threshold: usize,
    window: Duration,
    failures: VecDeque<u128>,
    open: bool,
    last_reset: Option<u128>,
}

impl View for FailureWindow {
    type V = BreakerView;

    closed spec fn view(&self) -> BreakerView {
        BreakerView {
            threshold: self.threshold as nat,
            window: self.window.nanos as nat,
            failures: self.failures@,
            open: self.open,
            last_reset: self.last_reset,
        }
    }
}

impl FailureWindow {
    /// A breaker that has seen nothing.
    pub fn new(threshold: usize, window: Duration) -> (b: FailureWindow)
        ensures
            b@ == BreakerView::fresh(threshold as nat, window.nanos as nat),
    {
        FailureWindow {
            threshold,
            window,
            failures: VecDeque::new(),
            open: false,
            last_reset: None,
        }
    }

    /// Records a failure at a time.
    pub fn record_failure_at(&mut self, now: u128)
        ensures
            final(self)@ == old(self)@.after_failure(now),
    {
        let ghost before = self.failures@;
        let window: u128 = self.window.nanos;
        while self.failures.len() > 0 && now >= self.failures[0] && now - self.failures[0] > window
            invariant
                self@ == (BreakerView { failures: self@.failures, ..old(self)@ }),
                window == self.window.nanos,
                before == old(self)@.failures,
                pruned(before, now, window as nat) == pruned(
                    self@.failures,
                    now,
                    window as nat,
                ),
            decreases self@.failures.len(),
        {
            let ghost f = self.failures@;
            let _ = self.failures.pop_front();
            assert(self.failures@ =~= f.drop_first());
        }
        self.failures.push_back(now);
        if self.failures.len() >= self.threshold {
            self.open = true;
        }
    }

    /// Resets the breaker at a time, unless it was reset too short a time ago.
    pub fn reset_at(&mut self, now: u128) -> (result: Result<(), &'static str>)
        ensures
            match result {
                Ok(()) => !old(self)@.cooling_down(now) && final(self)@ == old(self)@.after_reset(
                    now,
                ),
                Err(message) => old(self)@.cooling_down(now) && message@ == COOLDOWN_MESSAGE@
                    && final(self)@ == old(self)@,
            },
    {
        if let Some(last) = self.last_reset {
            let passed: u128 = if now >= last { now - last } else { 0 };
            if passed < RESET_COOLDOWN_NANOS {
                return Err(COOLDOWN_MESSAGE);
            }
        }
        self.failures.clear();
        self.open = false;
        self.last_reset = Some(now);
        Ok(())
    }

    /// Whether the circuit is open.
    pub fn is_open(&self) -> (open: bool)
        ensures
            open == self@.open,
    {
        self.open
    }

    /// The number of failures that count at a time.
    pub fn failure_count_at(&self, now: u128) -> (n: usize)
        ensures
            n == self@.count_at(now),
    {
        let window: u128 = self.window.nanos;
        let n: usize = self.failures.len();
        let mut gone: usize = 0;
        assert(self.failures@.skip(0) =~= self.failures@);
        while gone < n && now >= self.failures[gone] && now - self.failures[gone] > window
            invariant
                gone <= n,
                n == self.failures@.len(),
                window == self.window.nanos,
                pruned(self.failures@, now, window as nat) == pruned(
                    self.failures@.skip(gone as int),
                    now,
                    window as nat,
                ),
            decreases n - gone,
        {
            assert(self.failures@.skip(gone as int).drop_first() =~= self.failures@.skip(gone + 1));
            gone = gone + 1;
        }
        n - gone
    }
}

// ---------------------------------------------------------------------------------------
// Laws
// ---------------------------------------------------------------------------------------

/// Whether times do not decrease.
pub open spec fn in_order(times: Seq<u128>) -> bool {
    forall|i: int, j: int| 0 <= i <= j < times.len() ==> times[i] <= times[j]
}

/// An open circuit does not close by itself: no failure and no refused reset closes it.
pub proof fn law_open_until_reset(b: BreakerView, now: u128)
    ensures
        b.open ==> b.after_failure(now).open,
        !b.after_reset(now).open,
{
}

/// Where the clock does not run backwards, the failures that count are exactly those within
/// the window, and the circuit opens exactly when they reach the threshold.
pub proof fn law_counts_the_window(b: BreakerView, now: u128)
    requires
        in_order(b.failures),
        forall|i: int| 0 <= i < b.failures.len() ==> b.failures[i] <= now,
        !b.open,
    ensures
        pruned(b.failures, now, b.window) == b.failures.filter(
            |t: u128| elapsed(now, t) <= b.window,
        ),
        b.count_at(now) == b.failures.filter(|t: u128| elapsed(now, t) <= b.window).len(),
        in_order(b.after_failure(now).failures),
        b.after_failure(now).open <==> b.failures.filter(
            |t: u128| elapsed(now, t) <= b.window,
        ).len() + 1 >= b.threshold,
{
    lemma_pruned_is_filter(b.failures, now, b.window);
    lemma_pruned_is_suffix(b.failures, now, b.window);
}

proof fn lemma_pruned_is_filter(failures: Seq<u128>, now: u128, window: nat)
    requires
        in_order(failures),
        forall|i: int| 0 <= i < failures.len() ==> failures[i] <= now,
    ensures
        pruned(failures, now, window) == failures.filter(|t: u128| elapsed(now, t) <= window),
    decreases failures.len(),
{
    let p = |t: u128| elapsed(now, t) <= window;
    if failures.len() > 0 {
        let rest = failures.drop_first();
        assert(failures =~= seq![failures[0]] + rest);
        Seq::filter_distributes_over_add(seq![failures[0]], rest, p);
        reveal(Seq::filter);
        assert(seq![failures[0]].drop_last() =~= Seq::<u128>::empty());
        assert(Seq::<u128>::empty().filter(p) =~= Seq::<u128>::empty());
        if elapsed(now, failures[0]) > window {
            assert(seq![failures[0]].filter(p) =~= Seq::<u128>::empty());
            assert(in_order(rest)) by {
                assert forall|i: int, j: int| 0 <= i <= j < rest.len() implies rest[i] <= rest[j] by {
                    assert(failures[i + 1] <= failures[j + 1]);
                }
            }
            lemma_pruned_is_filter(rest, now, window);
            assert(failures.filter(p) =~= rest.filter(p));
        } else {
            assert forall|t: u128| failures.contains(t) implies #[trigger] p(t) by {
                let i = choose|i: int| 0 <= i < failures.len() && failures[i] == t;
                assert(failures[0] <= failures[i]);
            }
            lemma_filter_all(failures, p);
        }
    } else {
        reveal(Seq::filter);
        assert(failures.filter(p) =~= failures);
    }
}

/// What is left after pruning is in order, and none of it is after `now`.
proof fn lemma_pruned_is_suffix(failures: Seq<u128>, now: u128, window: nat)
    requires
        in_order(failures),
        forall|i: int| 0 <= i < failures.len() ==> failures[i] <= now,
    ensures
        in_order(pruned(failures, now, window)),
        forall|i: int|
            0 <= i < pruned(failures, now, window).len() ==> pruned(failures, now, window)[i]
                <= now,
    decreases failures.len(),
{
    if failures.len() > 0 && elapsed(now, failures[0]) > window {
        let rest = failures.drop_first();
        assert(in_order(rest)) by {
            assert forall|i: int, j: int| 0 <= i <= j < rest.len() implies rest[i] <= rest[j] by {
                assert(failures[i + 1] <= failures[j + 1]);
            }
        }
        lemma_pruned_is_suffix(rest, now, window);
    }
}

/// The breaker after failures at several times, one after the other.
pub open spec fn after_failures(b: BreakerView, times: Seq<u128>) -> BreakerView
    decreases times.len(),
{
    if times.len() == 0 {
        b
    } else {
        after_failures(b, times.drop_last()).after_failure(times.last())
    }
}

/// A reset closes the circuit and forgets the failures: whenever they happen, fewer failures
/// than the threshold do not open it again. Another reset right after it is refused.
pub proof fn law_reset_starts_over(b: BreakerView, now: u128, times: Seq<u128>)
    requires
        times.len() < b.threshold,
    ensures
        !after_failures(b.after_reset(now), times).open,
        b.after_reset(now).cooling_down(now),
{
    lemma_failures_add_up(b.after_reset(now), times);
}

/// Each failure adds at most one to those that count, and the circuit stays closed while they
/// are too few.
proof fn lemma_failures_add_up(b: BreakerView, times: Seq<u128>)
    requires
        !b.open,
        b.failures.len() + times.len() < b.threshold,
    ensures
        !after_failures(b, times).open,
        after_failures(b, times).failures.len() <= b.failures.len() + times.len(),
        after_failures(b, times).threshold == b.threshold,
    decreases times.len(),
{
    if times.len() > 0 {
        lemma_failures_add_up(b, times.drop_last());
        let before = after_failures(b, times.drop_last());
        lemma_pruned_is_shorter(before.failures, times.last(), before.window);
    }
}

proof fn lemma_pruned_is_shorter(failures: Seq<u128>, now: u128, window: nat)
    ensures
        pruned(failures, now, window).len() <= failures.len(),
    decreases failures.len(),
{
    if failures.len() > 0 && elapsed(now, failures[0]) > window {
        lemma_pruned_is_shorter(failures.drop_first(), now, window);
    }
}

/// A breaker that has seen nothing is closed, counts nothing and may be reset.
pub proof fn law_fresh_breaker_is_closed(threshold: nat, window: nat, now: u128)
    ensures
        !BreakerView::fresh(threshold, window).open,
        BreakerView::fresh(threshold, window).count_at(now) == 0,
        !BreakerView::fresh(threshold, window).cooling_down(now),
        BreakerView::fresh(threshold, window).threshold == threshold,
        BreakerView::fresh(threshold, window).window == window,
{
}

/// A failure is remembered as the last one and counts at once; neither a failure nor a reset
/// changes how many failures open the circuit or how long they count. Only a reset is remembered
/// as one.
pub proof fn law_failure_is_remembered(b: BreakerView, now: u128)
    ensures
        b.after_failure(now).failures.len() > 0,
        b.after_failure(now).failures.last() == now,
        b.after_failure(now).failures.len() >= b.threshold ==> b.after_failure(now).open,
        b.after_failure(now).failures.len() < b.threshold ==> b.after_failure(now).open == b.open,
        b.after_failure(now).threshold == b.threshold && b.after_reset(now).threshold == b.threshold,
        b.after_failure(now).window == b.window && b.after_reset(now).window == b.window,
        b.after_failure(now).last_reset == b.last_reset,
        b.after_reset(now).last_reset == Some(now),
        b.after_reset(now).failures.len() == 0,
{
}

/// A reset is refused exactly where less than a minute has passed since the last one, and never
/// where there was none.
pub proof fn law_reset_is_refused_for_a_minute(b: BreakerView, now: u128)
    ensures
        b.last_reset is None ==> !b.cooling_down(now),
        b.last_reset matches Some(last) ==> (b.cooling_down(now) <==> now < last + 60_000_000_000),
{
}

/// A failure leaves the window once more time has passed than the window is long: what counts is
/// what is left of the failures from the first that has not, and nothing that has not is dropped.
pub proof fn law_window_drops_old_failures(failures: Seq<u128>, now: u128, window: nat)
    ensures
        ({
            let kept = pruned(failures, now, window);
            let gone = failures.len() - kept.len();
            &&& 0 <= gone
            &&& kept == failures.skip(gone)
            &&& kept.len() > 0 ==> now <= kept[0] + window
            &&& forall|i: int| 0 <= i < gone ==> now > #[trigger] failures[i] + window
        }),
    decreases failures.len(),
{
    if failures.len() > 0 && elapsed(now, failures[0]) > window {
        let rest = failures.drop_first();
        law_window_drops_old_failures(rest, now, window);
        let kept = pruned(failures, now, window);
        let gone = failures.len() - kept.len();
        assert(kept =~= failures.skip(gone));
        assert forall|i: int| 0 <= i < gone implies now > #[trigger] failures[i] + window by {
            if i > 0 {
                assert(rest[i - 1] == failures[i]);
            }
        }
    } else {
        assert(failures.skip(0) =~= failures);
    }
}

} // verus!
