use vstd::prelude::*;
use crate::timer::TimerModel;

verus! {

/// Taking `a` steps and then `b` more emits the events of the first `a` steps
/// followed by those of the next `b`.
pub proof fn lemma_trace_split(m: TimerModel, a: nat, b: nat)
    ensures
        m.trace(a + b) == m.trace(a) + m.steps(a).trace(b),
        m.steps(a + b) == m.steps(a).steps(b),
    decreases a,
{
    if a == 0 {
        assert(m.trace(0) + m.trace(b) =~= m.trace(b));
    } else if m.expired {
        lemma_expired_is_terminal(m, a, 0);
        lemma_expired_is_terminal(m, a + b, 0);
        lemma_expired_is_terminal(m, b, 0);
        assert(m.trace(a) + m.steps(a).trace(b) =~= Seq::<int>::empty());
    } else {
        lemma_trace_split(m.step(), (a - 1) as nat, b);
        assert(((a + b) - 1) as nat == ((a - 1) as nat + b) as nat);
        assert(m.trace(a + b) =~= m.trace(a) + m.steps(a).trace(b));
    }
}

/// Successive events of a timer lie exactly one interval apart: the `i`-th
/// event of any run of steps falls at `next_time + i * interval`.
pub proof fn lemma_successive_events_one_interval_apart(m: TimerModel, n: nat)
    ensures
        m.trace(n).len() <= n,
        forall|i: int| 0 <= i < m.trace(n).len() ==> #[trigger] m.trace(n)[i] == m.next_time + i * m.interval,
        forall|i: int| 0 <= i < m.trace(n).len() - 1 ==> #[trigger] m.trace(n)[i + 1] == m.trace(n)[i] + m.interval,
    decreases n,
{
    if n > 0 && !m.expired {
        let rest = m.step().trace((n - 1) as nat);
        lemma_successive_events_one_interval_apart(m.step(), (n - 1) as nat);
        assert forall|i: int| 0 <= i < m.trace(n).len() implies #[trigger] m.trace(n)[i] == m.next_time + i * m.interval by {
            if i > 0 {
                assert(m.trace(n)[i] == rest[i - 1]);
                assert(m.next_time + m.interval + (i - 1) * m.interval == m.next_time + i * m.interval) by (nonlinear_arith);
            }
        }
        assert forall|i: int| 0 <= i < m.trace(n).len() - 1 implies #[trigger] m.trace(n)[i + 1] == m.trace(n)[i] + m.interval by {
            assert(m.trace(n)[i + 1] == m.next_time + (i + 1) * m.interval);
            assert(m.trace(n)[i] == m.next_time + i * m.interval);
            assert(m.next_time + (i + 1) * m.interval == m.next_time + i * m.interval + m.interval) by (nonlinear_arith);
        }
    }
}

/// Once a timer has expired, no number of steps and no advance emits an
/// event, and none changes the timer.
pub proof fn lemma_expired_is_terminal(m: TimerModel, n: nat, to: int)
    requires
        m.expired,
    ensures
        m.step() == m,
        m.steps(n) == m,
        m.trace(n) == Seq::<int>::empty(),
        m.horizon_events(to) == Seq::<int>::empty(),
        m.horizon_state(to) == m,
    decreases n,
{
    if n > 0 {
        lemma_expired_is_terminal(m, (n - 1) as nat, to);
    }
}

/// A run of steps whose last event falls exactly on the stop time `r` steps on.
proof fn lemma_runs_to_stop(m: TimerModel, r: nat)
    requires
        !m.expired,
        m.interval > 0,
        r >= 1,
        m.stop_time == Some(m.next_time + (r - 1) * m.interval),
    ensures
        m.trace(r).len() == r,
        m.steps(r).expired,
        m.trace(r + 1) == m.trace(r),
    decreases r,
{
    if r == 1 {
        assert((r - 1) * m.interval == 0) by (nonlinear_arith)
            requires
                r == 1,
        ;
        let s = m.step();
        assert(s.expired);
        assert(s.steps(0) == s);
        assert(m.steps(1) == s.steps(0));
        assert(s.trace(0) =~= Seq::<int>::empty());
        assert(s.trace(1) =~= Seq::<int>::empty());
        assert(m.trace(1) =~= seq![m.next_time] + s.trace(0));
        assert(m.trace(2) =~= seq![m.next_time] + s.trace(1));
    } else {
        let s = m.step();
        assert((r - 1) * m.interval >= m.interval) by (nonlinear_arith)
            requires
                r >= 2,
                m.interval > 0,
        ;
        assert(m.next_time + (r - 1) * m.interval == s.next_time + ((r - 1) as nat - 1) * m.interval) by (nonlinear_arith)
            requires
                s.next_time == m.next_time + m.interval,
                r >= 2,
        ;
        lemma_runs_to_stop(s, (r - 1) as nat);
        assert(((r + 1) - 1) as nat == ((r - 1) as nat + 1) as nat);
    }
}

/// With `stop_time = start_time + k * interval` (and `k >= 1`), a fresh timer
/// emits exactly `k` events in its first `k` steps, at `start_time + interval`
/// onwards, is expired after them, and a further step emits nothing.
pub proof fn lemma_stop_time_is_inclusive(name: Seq<char>, start_time: int, interval: int, k: nat)
    requires
        interval > 0,
        k >= 1,
    ensures
        ({
            let m = TimerModel::initial(name, interval, start_time, Some(start_time + k * interval));
            &&& m.trace(k).len() == k
            &&& m.trace(k)[0] == start_time + interval
            &&& m.steps(k).expired
            &&& m.trace(k + 1) == m.trace(k)
        }),
{
    let m = TimerModel::initial(name, interval, start_time, Some(start_time + k * interval));
    assert(start_time + k * interval == m.next_time + (k - 1) * interval) by (nonlinear_arith)
        requires
            m.next_time == start_time + interval,
    ;
    lemma_runs_to_stop(m, k);
}

/// Advancing to `to` emits exactly the events that stepping emits up to that
/// horizon, in order and without gaps or repeats, and leaves the timer as those
/// steps would: after them the timer is expired or its next instant lies past
/// `to`, and any further steps emit only events past `to`.
pub proof fn lemma_advance_is_stepping_to_horizon(m: TimerModel, to: int, extra: nat)
    requires
        m.interval > 0,
    ensures
        ({
            let n = m.horizon_events(to).len();
            let f = m.horizon_state(to);
            &&& m.horizon_events(to) == m.trace(n)
            &&& f == m.steps(n)
            &&& f.interval == m.interval
            &&& forall|i: int| 0 <= i < n ==> #[trigger] m.horizon_events(to)[i] <= to
            &&& (f.expired || f.next_time > to)
            &&& m.trace(n + extra) == m.horizon_events(to) + f.trace(extra)
            &&& forall|i: int| 0 <= i < f.trace(extra).len() ==> #[trigger] f.trace(extra)[i] > to
        }),
    decreases m.distance_to(to),
{
    let n = m.horizon_events(to).len();
    let f = m.horizon_state(to);
    if m.steps_within(to) {
        let s = m.step();
        lemma_advance_is_stepping_to_horizon(s, to, extra);
        assert(m.horizon_events(to) =~= m.trace(n));
        assert(m.steps(n) == s.steps((n - 1) as nat));
    } else {
        assert(m.trace(0) =~= Seq::<int>::empty());
    }
    lemma_trace_split(m, n, extra);
    lemma_successive_events_one_interval_apart(f, extra);
    if f.expired {
        lemma_expired_is_terminal(f, extra, to);
    } else {
        assert forall|i: int| 0 <= i < f.trace(extra).len() implies #[trigger] f.trace(extra)[i] > to by {
            assert(i * f.interval >= 0) by (nonlinear_arith)
                requires
                    i >= 0,
                    f.interval > 0,
            ;
        }
    }
}

/// After cancellation, advancing to any horizon emits nothing.
pub proof fn lemma_cancel_then_advance_is_empty(m: TimerModel, to: int)
    ensures
        m.cancelled().horizon_events(to) == Seq::<int>::empty(),
        m.cancelled().horizon_state(to) == m.cancelled(),
{
    lemma_expired_is_terminal(m.cancelled(), 0, to);
}

} // verus!
