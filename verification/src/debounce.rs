//! Trailing-edge debouncing: a burst of updates arriving within a fixed
//! quiet-period window collapses into a single emission of the most recent
//! value, `window` after the last update of the burst.
//!
//! The timer itself lives with the transport-facing shell; this module is
//! the state machine it drives.  [`Debouncer::on_update`] records a value
//! and restarts the quiet period, [`Debouncer::poll`] hands the value out
//! once the quiet period has elapsed.  [`run_debounce`] replays a whole
//! timed update sequence through the machine and is proved to emit exactly
//! what [`spec_debounce`] states.

use vstd::prelude::*;

verus! {

/// The quiet-period window between the last update of a burst and its
/// emission, in milliseconds.
pub const DEBOUNCE_WINDOW_MS: u64 = 100;

/// The debouncing state machine: at most one pending value, due at
/// `deadline_ms`.
pub struct Debouncer<T> {
    pub window_ms: u64,
    pub pending: Option<T>,
    pub deadline_ms: u64,
}

impl<T> Debouncer<T> {
    /// A debouncer with nothing pending.
    pub fn new(window_ms: u64) -> (r: Debouncer<T>)
        ensures
            r.window_ms == window_ms,
            r.pending is None,
    {
        Debouncer { window_ms, pending: None, deadline_ms: 0 }
    }

    /// Records `value` as the pending emission and restarts the quiet
    /// period: any previously pending value is superseded.
    pub fn on_update(&mut self, value: T, now_ms: u64)
        requires
            now_ms + old(self).window_ms <= u64::MAX,
        ensures
            final(self).window_ms == old(self).window_ms,
            final(self).pending == Some(value),
            final(self).deadline_ms == now_ms + old(self).window_ms,
    {
        self.pending = Some(value);
        self.deadline_ms = now_ms + self.window_ms;
    }

    /// Emits the pending value once the quiet period has elapsed; before
    /// the deadline, or with nothing pending, emits nothing and changes
    /// nothing.
    pub fn poll(&mut self, now_ms: u64) -> (r: Option<T>)
        ensures
            final(self).window_ms == old(self).window_ms,
            final(self).deadline_ms == old(self).deadline_ms,
            old(self).pending is Some && now_ms >= old(self).deadline_ms ==> {
                &&& r == old(self).pending
                &&& final(self).pending is None
            },
            !(old(self).pending is Some && now_ms >= old(self).deadline_ms) ==> {
                &&& r is None
                &&& final(self).pending == old(self).pending
            },
    {
        if self.pending.is_some() && now_ms >= self.deadline_ms {
            let mut taken: Option<T> = None;
            core::mem::swap(&mut self.pending, &mut taken);
            taken
        } else {
            None
        }
    }
}

/// The values among the first `upto` timed updates that the debouncer has
/// emitted by the time update `upto` is applied: update `k` is emitted iff
/// the following update came no sooner than a full window after it.
pub open spec fn emitted_prefix<T>(events: Seq<(u64, T)>, window: u64, upto: int) -> Seq<T>
    decreases upto,
{
    if upto <= 1 {
        Seq::empty()
    } else {
        emitted_prefix(events, window, upto - 1) + (if events[upto - 1].0 >= events[upto - 2].0
            + window {
            seq![events[upto - 2].1]
        } else {
            Seq::empty()
        })
    }
}

/// Everything a debounced replay of `events` emits, in order: each update
/// followed by a gap of at least `window` before the next one, and the final
/// update once its quiet period runs out.  An empty stream emits nothing.
pub open spec fn spec_debounce<T>(events: Seq<(u64, T)>, window: u64) -> Seq<T> {
    if events.len() == 0 {
        Seq::empty()
    } else {
        emitted_prefix(events, window, events.len() as int) + seq![events.last().1]
    }
}

/// Replays a sequence of timed updates through a fresh debouncer, polling
/// the timer at each update's arrival and once more at the final deadline,
/// and returns everything emitted, in order.
pub fn run_debounce<T>(window_ms: u64, events: Vec<(u64, T)>) -> (r: Vec<T>)
    requires
        forall|k: int| 0 <= k < events@.len() ==> #[trigger] events@[k].0 + window_ms
            <= u64::MAX,
    ensures
        r@ == spec_debounce(events@, window_ms),
{
    let ghost orig = events@;
    let mut rest = events;
    let mut deb: Debouncer<T> = Debouncer::new(window_ms);
    let mut out: Vec<T> = Vec::new();
    while rest.len() > 0
        invariant
            deb.window_ms == window_ms,
            rest@.len() <= orig.len(),
            rest@ =~= orig.skip(orig.len() - rest@.len()),
            forall|k: int| 0 <= k < orig.len() ==> #[trigger] orig[k].0 + window_ms
                <= u64::MAX,
            ({
                let i = orig.len() - rest@.len();
                &&& out@ == emitted_prefix(orig, window_ms, i as int)
                &&& (i == 0 ==> deb.pending is None)
                &&& (i > 0 ==> deb.pending == Some(orig[i - 1].1) && deb.deadline_ms
                    == orig[i - 1].0 + window_ms)
            }),
        decreases rest@.len(),
    {
        let ghost i = orig.len() - rest@.len();
        proof {
            assert(rest@[0] == orig.skip(i as int)[0]);
            assert(orig.skip(i as int)[0] == orig[i as int]);
        }
        let (t, v) = rest.remove(0);
        proof {
            assert(rest@ =~= orig.skip(i + 1));
        }
        if let Some(e) = deb.poll(t) {
            out.push(e);
        }
        proof {
            assert(out@ =~= emitted_prefix(orig, window_ms, i + 1));
        }
        deb.on_update(v, t);
    }
    if deb.pending.is_some() {
        let d = deb.deadline_ms;
        if let Some(e) = deb.poll(d) {
            out.push(e);
        }
        proof {
            assert(out@ =~= spec_debounce(orig, window_ms));
        }
    }
    proof {
        assert(out@ =~= spec_debounce(orig, window_ms));
    }
    out
}

/// No update of the first `upto` is ever followed within less than a full
/// window, so nothing has been emitted while they were applied.
proof fn lemma_emitted_prefix_empty<T>(events: Seq<(u64, T)>, window: u64, upto: int)
    requires
        upto <= events.len(),
        forall|k: int|
            #![trigger events[k].0]
            0 <= k < events.len() - 1 ==> events[k + 1].0 < events[k].0 + window,
    ensures
        emitted_prefix(events, window, upto) == Seq::<T>::empty(),
    decreases upto,
{
    if upto > 1 {
        lemma_emitted_prefix_empty(events, window, upto - 1);
        assert(events[upto - 2].0 + window > events[upto - 1].0);
        assert(emitted_prefix(events, window, upto) =~= Seq::<T>::empty());
    }
}

/// A burst: every update arrives within the quiet-period window of the one
/// before it.  Exactly one emission occurs, carrying the last value.
pub proof fn lemma_debounce_burst<T>(events: Seq<(u64, T)>, window: u64)
    requires
        events.len() >= 1,
        forall|k: int|
            #![trigger events[k].0]
            0 <= k < events.len() - 1 ==> events[k + 1].0 < events[k].0 + window,
    ensures
        spec_debounce(events, window) == seq![events.last().1],
{
    lemma_emitted_prefix_empty(events, window, events.len() as int);
    assert(spec_debounce(events, window) =~= seq![events.last().1]);
}

/// Two updates separated by at least the window: both are emitted, in order.
pub proof fn lemma_debounce_two_spaced<T>(events: Seq<(u64, T)>, window: u64)
    requires
        events.len() == 2,
        events[1].0 >= events[0].0 + window,
    ensures
        spec_debounce(events, window) == seq![events[0].1, events[1].1],
{
    assert(emitted_prefix(events, window, 1) == Seq::<T>::empty());
    assert(spec_debounce(events, window) =~= seq![events[0].1, events[1].1]);
}

} // verus!
