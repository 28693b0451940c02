use vstd::prelude::*;

verus! {

/// Coalesces bursts of fireable signals into restarts.
///
/// Without a window every signal asks for a restart at once. With a window `w`, the first
/// signal of a burst opens it; the signals that follow before `w` has elapsed join the
/// burst; once `w` has elapsed since the burst opened, exactly one restart is issued.
#[derive(Clone, Copy, Debug)]
pub struct DebounceWindow {
    /// The debounce window, in milliseconds; none for a restart per signal.
    pub window: Option<u64>,
    /// When the pending burst opened, if one is pending.
    pub pending_since: Option<u64>,
    /// When the last restart was issued.
    pub last_fired_at: Option<u64>,
}

/// A coordinator with window `window` and nothing pending.
pub open spec fn fresh(window: Option<u64>) -> DebounceWindow {
    DebounceWindow { window, pending_since: None, last_fired_at: None }
}

/// Whether, at time `now`, the pending burst of `d` is due: its window has elapsed.
pub open spec fn tick_due(d: DebounceWindow, now: int) -> bool {
    match (d.window, d.pending_since) {
        (Some(w), Some(p)) => now - p >= w,
        _ => false,
    }
}

/// The time at which the pending burst of `d` is due.
pub open spec fn due_at(d: DebounceWindow) -> int {
    match (d.window, d.pending_since) {
        (Some(w), Some(p)) => p + w,
        _ => 0,
    }
}

/// `d` once the restart of its pending burst was issued at `now`.
pub open spec fn fired(d: DebounceWindow, now: u64) -> DebounceWindow {
    DebounceWindow { pending_since: None, last_fired_at: Some(now), ..d }
}

/// `d` once a fireable signal arrived at `now`.
pub open spec fn signalled(d: DebounceWindow, now: u64) -> DebounceWindow {
    match d.window {
        None => DebounceWindow { last_fired_at: Some(now), ..d },
        Some(_) => if d.pending_since is None {
            DebounceWindow { pending_since: Some(now), ..d }
        } else {
            d
        },
    }
}

/// The times of the restarts issued when fireable signals arrive at `times`, in order,
/// starting from `d`, where the coordinator is also woken at each burst's due time and,
/// after the last signal, at the due time of the burst left pending.
pub open spec fn restart_times(d: DebounceWindow, times: Seq<u64>) -> Seq<int>
    decreases times.len(),
{
    if times.len() == 0 {
        if d.window is Some && d.pending_since is Some {
            seq![due_at(d)]
        } else {
            Seq::empty()
        }
    } else {
        let t = times[0];
        let due = tick_due(d, t as int);
        let head: Seq<int> = if due {
            seq![due_at(d)]
        } else if d.window is None {
            seq![t as int]
        } else {
            Seq::empty()
        };
        let next = signalled(if due { fired(d, t) } else { d }, t);
        head + restart_times(next, times.skip(1))
    }
}

/// Consecutive signal times lie more than `w` apart.
pub open spec fn spaced(times: Seq<u64>, w: u64) -> bool {
    forall|i: int| 0 <= i < times.len() - 1 ==> #[trigger] times[i + 1] - times[i] > w
}

/// All signal times lie within one window `w` that opens at the first of them.
pub open spec fn one_burst(times: Seq<u64>, w: u64) -> bool {
    &&& times.len() > 0
    &&& forall|i: int| 0 <= i < times.len() ==> times[0] <= #[trigger] times[i] < times[0] + w
}

impl DebounceWindow {
    /// A coordinator with the given window and nothing pending.
    pub fn new(window: Option<u64>) -> (r: DebounceWindow)
        ensures
            r == fresh(window),
    {
        DebounceWindow { window, pending_since: None, last_fired_at: None }
    }

    /// Records a fireable signal at `now`. Returns true where a restart is to be issued at
    /// once, which is exactly when no window is set.
    pub fn on_signal(&mut self, now: u64) -> (restart: bool)
        ensures
            restart == (old(self).window is None),
            *final(self) == signalled(*old(self), now),
    {
        match self.window {
            None => {
                self.last_fired_at = Some(now);
                true
            },
            Some(_) => {
                if self.pending_since.is_none() {
                    self.pending_since = Some(now);
                }
                false
            },
        }
    }

    /// Records that time `now` has come. Returns true where the pending burst is due, and
    /// then issues its restart.
    pub fn on_tick(&mut self, now: u64) -> (restart: bool)
        ensures
            restart == tick_due(*old(self), now as int),
            *final(self) == if restart {
                fired(*old(self), now)
            } else {
                *old(self)
            },
    {
        match (self.window, self.pending_since) {
            (Some(w), Some(p)) => {
                if now >= p && now - p >= w {
                    self.pending_since = None;
                    self.last_fired_at = Some(now);
                    true
                } else {
                    false
                }
            },
            _ => false,
        }
    }

    /// Records a fireable signal at `now`, after issuing the pending burst's restart if it
    /// is due. Returns true where a restart is to be issued now.
    pub fn receive(&mut self, now: u64) -> (restart: bool)
        ensures
            restart == (tick_due(*old(self), now as int) || old(self).window is None),
            *final(self) == signalled(
                if tick_due(*old(self), now as int) {
                    fired(*old(self), now)
                } else {
                    *old(self)
                },
                now,
            ),
    {
        let due = self.on_tick(now);
        let at_once = self.on_signal(now);
        due || at_once
    }

    /// The time at which the pending burst is due, if one is pending (at most `u64::MAX`).
    pub fn deadline(&self) -> (r: Option<u64>)
        ensures
            match (self.window, self.pending_since) {
                (Some(w), Some(p)) => r == Some(
                    if p + w <= u64::MAX {
                        (p + w) as u64
                    } else {
                        u64::MAX
                    },
                ),
                _ => r is None,
            },
    {
        match (self.window, self.pending_since) {
            (Some(w), Some(p)) => Some(p.saturating_add(w)),
            _ => None,
        }
    }
}

proof fn lemma_spaced_from(d: DebounceWindow, w: u64, times: Seq<u64>)
    requires
        d.window == Some(w),
        spaced(times, w),
        d.pending_since is Some && times.len() > 0 ==> times[0] - d.pending_since->0 > w,
    ensures
        restart_times(d, times) == (if d.pending_since is Some {
            seq![due_at(d)]
        } else {
            Seq::<int>::empty()
        }) + times.map_values(|t: u64| t + w),
    decreases times.len(),
{
    if times.len() == 0 {
        assert(times.map_values(|t: u64| t + w) =~= Seq::<int>::empty());
        assert(restart_times(d, times) =~= (if d.pending_since is Some {
            seq![due_at(d)]
        } else {
            Seq::<int>::empty()
        }) + times.map_values(|t: u64| t + w));
    } else {
        let t = times[0];
        let due = tick_due(d, t as int);
        let next = signalled(if due { fired(d, t) } else { d }, t);
        let rest = times.skip(1);
        assert(next.pending_since == Some(t));
        assert(next.window == Some(w));
        assert forall|i: int| 0 <= i < rest.len() - 1 implies #[trigger] rest[i + 1] - rest[i] > w by {
            assert(rest[i + 1] == times[i + 2]);
            assert(rest[i] == times[i + 1]);
            assert(times[(i + 1) + 1] - times[i + 1] > w);
        }
        if rest.len() > 0 {
            assert(rest[0] == times[1]);
            assert(times[0int + 1] - times[0] > w);
        }
        lemma_spaced_from(next, w, rest);
        assert(due_at(next) == t + w);
        assert(times.map_values(|t: u64| t + w) =~= seq![t + w] + rest.map_values(
            |t: u64| t + w,
        ));
        assert(restart_times(d, times) =~= (if d.pending_since is Some {
            seq![due_at(d)]
        } else {
            Seq::<int>::empty()
        }) + times.map_values(|t: u64| t + w));
    }
}

/// Signals that arrive more than a window apart each give exactly one restart, one window
/// after the signal.
pub proof fn lemma_spaced_signals_restart_once_each(w: u64, times: Seq<u64>)
    requires
        spaced(times, w),
    ensures
        restart_times(fresh(Some(w)), times) == times.map_values(
            |t: u64| t + w,
        ),
{
    let d = fresh(Some(w));
    lemma_spaced_from(d, w, times);
    assert(Seq::<int>::empty() + times.map_values(|t: u64| t + w) =~= times.map_values(
        |t: u64| t + w,
    ));
}

/// Without a window, every signal gives exactly one restart, at its own arrival.
pub proof fn lemma_no_window_restart_per_signal(times: Seq<u64>)
    ensures
        restart_times(fresh(None), times) == times.map_values(|t: u64| t as int),
    decreases times.len(),
{
    let d = fresh(None);
    if times.len() == 0 {
        assert(times.map_values(|t: u64| t as int) =~= Seq::<int>::empty());
    } else {
        let t = times[0];
        let rest = times.skip(1);
        assert(signalled(d, t).window is None);
        lemma_no_window_from(signalled(d, t), rest);
        assert(times.map_values(|t: u64| t as int) =~= seq![t as int] + rest.map_values(
            |t: u64| t as int,
        ));
    }
}

proof fn lemma_no_window_from(d: DebounceWindow, times: Seq<u64>)
    requires
        d.window is None,
    ensures
        restart_times(d, times) == times.map_values(|t: u64| t as int),
    decreases times.len(),
{
    if times.len() == 0 {
        assert(times.map_values(|t: u64| t as int) =~= Seq::<int>::empty());
    } else {
        let t = times[0];
        let rest = times.skip(1);
        lemma_no_window_from(signalled(d, t), rest);
        assert(times.map_values(|t: u64| t as int) =~= seq![t as int] + rest.map_values(
            |t: u64| t as int,
        ));
    }
}

proof fn lemma_burst_from(d: DebounceWindow, w: u64, p: u64, times: Seq<u64>)
    requires
        d.window == Some(w),
        d.pending_since == Some(p),
        forall|i: int| 0 <= i < times.len() ==> #[trigger] times[i] < p + w,
    ensures
        restart_times(d, times) == seq![p + w],
    decreases times.len(),
{
    if times.len() > 0 {
        let t = times[0];
        assert(!tick_due(d, t as int));
        assert(signalled(d, t) == d);
        let rest = times.skip(1);
        assert forall|i: int| 0 <= i < rest.len() implies #[trigger] rest[i] < p + w by {
            assert(rest[i] == times[i + 1]);
        }
        lemma_burst_from(d, w, p, rest);
        assert(restart_times(d, times) =~= seq![p + w]);
    }
}

/// A burst of signals that all arrive within one window of the first gives exactly one
/// restart, issued one window after the first signal: no earlier than it, and no later
/// than one window after it.
pub proof fn lemma_burst_restarts_once(w: u64, times: Seq<u64>)
    requires
        one_burst(times, w),
    ensures
        restart_times(fresh(Some(w)), times) == seq![times[0] + w],
        times[0] <= restart_times(fresh(Some(w)), times)[0] <= times[0] + w,
{
    let d = fresh(Some(w));
    let t = times[0];
    assert(!tick_due(d, t as int));
    let next = signalled(d, t);
    let rest = times.skip(1);
    assert forall|i: int| 0 <= i < rest.len() implies #[trigger] rest[i] < t + w by {
        assert(rest[i] == times[i + 1]);
    }
    lemma_burst_from(next, w, t, rest);
    assert(restart_times(d, times) =~= seq![t + w]);
}

/// What a run of signals gives depends on the window and the pending burst alone, not on
/// when the last restart was issued.
proof fn lemma_same_pending(d1: DebounceWindow, d2: DebounceWindow, times: Seq<u64>)
    requires
        d1.window == d2.window,
        d1.pending_since == d2.pending_since,
    ensures
        restart_times(d1, times) == restart_times(d2, times),
    decreases times.len(),
{
    if times.len() > 0 {
        let t = times[0];
        let n1 = signalled(if tick_due(d1, t as int) { fired(d1, t) } else { d1 }, t);
        let n2 = signalled(if tick_due(d2, t as int) { fired(d2, t) } else { d2 }, t);
        lemma_same_pending(n1, n2, times.skip(1));
    }
}

proof fn lemma_burst_then(d: DebounceWindow, w: u64, p: u64, rest: Seq<u64>, later: Seq<u64>)
    requires
        d.window == Some(w),
        d.pending_since == Some(p),
        forall|i: int| 0 <= i < rest.len() ==> #[trigger] rest[i] < p + w,
        later.len() > 0 ==> later[0] >= p + w,
    ensures
        restart_times(d, rest + later) == seq![p + w] + restart_times(fresh(Some(w)), later),
    decreases rest.len(),
{
    if rest.len() == 0 {
        assert(rest + later =~= later);
        if later.len() == 0 {
            assert(restart_times(d, rest + later) =~= seq![p + w] + restart_times(
                fresh(Some(w)),
                later,
            ));
        } else {
            let t = later[0];
            let f = fresh(Some(w));
            assert(tick_due(d, t as int));
            assert(!tick_due(f, t as int));
            lemma_same_pending(signalled(fired(d, t), t), signalled(f, t), later.skip(1));
            assert(restart_times(d, later) =~= seq![p + w] + restart_times(f, later));
        }
    } else {
        let t = rest[0];
        assert(!tick_due(d, t as int));
        assert(signalled(d, t) == d);
        let tail = rest.skip(1);
        assert forall|i: int| 0 <= i < tail.len() implies #[trigger] tail[i] < p + w by {
            assert(tail[i] == rest[i + 1]);
        }
        lemma_burst_then(d, w, p, tail, later);
        assert((rest + later)[0] == t);
        assert((rest + later).skip(1) =~= tail + later);
        assert(restart_times(d, rest + later) =~= seq![p + w] + restart_times(
            fresh(Some(w)),
            later,
        ));
    }
}

/// A burst of signals within one window gives exactly one restart, one window after its
/// first signal, whatever came before and after, as long as no other signal comes within
/// a window of it: any burst left pending from before (opened at least a window before the
/// first signal) gives its own one restart first, and the signals that come a window or
/// more after the first run afterwards as they would on a fresh coordinator.
pub proof fn lemma_burst_in_run(d: DebounceWindow, w: u64, burst: Seq<u64>, later: Seq<u64>)
    requires
        d.window == Some(w),
        one_burst(burst, w),
        d.pending_since is Some ==> burst[0] - d.pending_since->0 >= w,
        later.len() > 0 ==> later[0] >= burst[0] + w,
    ensures
        restart_times(d, burst + later) == (if d.pending_since is Some {
            seq![due_at(d)]
        } else {
            Seq::<int>::empty()
        }) + seq![burst[0] + w] + restart_times(fresh(Some(w)), later),
{
    let t = burst[0];
    let next = signalled(if tick_due(d, t as int) { fired(d, t) } else { d }, t);
    assert(next.pending_since == Some(t));
    assert(next.window == Some(w));
    let rest = burst.skip(1);
    assert forall|i: int| 0 <= i < rest.len() implies #[trigger] rest[i] < t + w by {
        assert(rest[i] == burst[i + 1]);
    }
    lemma_burst_then(next, w, t, rest, later);
    assert((burst + later)[0] == t);
    assert((burst + later).skip(1) =~= rest + later);
    assert(restart_times(d, burst + later) =~= (if d.pending_since is Some {
        seq![due_at(d)]
    } else {
        Seq::<int>::empty()
    }) + seq![burst[0] + w] + restart_times(fresh(Some(w)), later));
}

} // verus!
