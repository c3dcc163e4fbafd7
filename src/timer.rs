use vstd::prelude::*;
use crate::event::{MessageCategory, TimeEvent, Timedelta, Timestamp};
use crate::ids::{version_of, UUID4};

verus! {

/// The abstract state of a deterministic timer: its configuration and where it
/// stands in its sequence of events.
pub struct TimerModel {
    pub name: Seq<char>,
    pub interval: int,
    pub start_time: int,
    pub stop_time: Option<int>,
    pub next_time: int,
    pub expired: bool,
}

/// An optional timestamp as an optional integer.
pub open spec fn opt_time(t: Option<Timestamp>) -> Option<int> {
    match t {
        Some(v) => Some(v as int),
        None => None,
    }
}

/// Whether `e` is the event that a timer named `name` emits for the instant `t`.
pub open spec fn is_timer_event(e: TimeEvent, name: Seq<char>, t: int) -> bool {
    &&& e.name@ == name
    &&& e.category == MessageCategory::EVENT
    &&& e.ts_event == t
    &&& e.ts_init == t
}

/// Whether `events` are, in order, the events of a timer named `name` for the
/// instants `times`.
pub open spec fn are_timer_events(events: Seq<TimeEvent>, name: Seq<char>, times: Seq<int>) -> bool {
    &&& events.len() == times.len()
    &&& forall|i: int| 0 <= i < times.len() ==> is_timer_event(#[trigger] events[i], name, times[i])
}

impl TimerModel {
    /// A fresh timer: its first event falls one interval after the start time.
    pub open spec fn initial(name: Seq<char>, interval: int, start_time: int, stop_time: Option<int>) -> TimerModel {
        TimerModel {
            name,
            interval,
            start_time,
            stop_time,
            next_time: start_time + interval,
            expired: false,
        }
    }

    /// Whether the event at `next_time` is the last one: a stop time is set
    /// and `next_time` has reached it.
    pub open spec fn at_stop(self) -> bool {
        match self.stop_time {
            Some(stop) => self.next_time >= stop,
            None => false,
        }
    }

    /// One step. An expired timer stays as it is; otherwise the event at
    /// `next_time` is emitted, the timer expires if that event reached the stop
    /// time, and `next_time` moves on by one interval.
    pub open spec fn step(self) -> TimerModel {
        if self.expired {
            self
        } else {
            TimerModel {
                name: self.name,
                interval: self.interval,
                start_time: self.start_time,
                stop_time: self.stop_time,
                next_time: self.next_time + self.interval,
                expired: self.at_stop(),
            }
        }
    }

    /// The timer after cancellation.
    pub open spec fn cancelled(self) -> TimerModel {
        TimerModel { expired: true, ..self }
    }

    /// The timer after `n` steps.
    pub open spec fn steps(self, n: nat) -> TimerModel
        decreases n,
    {
        if n == 0 {
            self
        } else {
            self.step().steps((n - 1) as nat)
        }
    }

    /// The instants of the events that `n` steps emit, in order.
    pub open spec fn trace(self, n: nat) -> Seq<int>
        decreases n,
    {
        if n == 0 || self.expired {
            Seq::empty()
        } else {
            seq![self.next_time] + self.step().trace((n - 1) as nat)
        }
    }

    /// Whether a step taken while advancing to `to` emits an event: the timer
    /// is live, its next instant is within the horizon, and it moves forward.
    pub open spec fn steps_within(self, to: int) -> bool {
        !self.expired && self.next_time <= to && self.interval > 0
    }

    /// How far `next_time` lies before `to`, counting `to` itself.
    pub open spec fn distance_to(self, to: int) -> nat {
        if self.next_time <= to {
            (to - self.next_time + 1) as nat
        } else {
            0
        }
    }

    /// The instants of the events that advancing to `to` emits, in order.
    pub open spec fn horizon_events(self, to: int) -> Seq<int>
        decreases self.distance_to(to),
    {
        if self.steps_within(to) {
            seq![self.next_time] + self.step().horizon_events(to)
        } else {
            Seq::empty()
        }
    }

    /// The timer after advancing to `to`.
    pub open spec fn horizon_state(self, to: int) -> TimerModel
        decreases self.distance_to(to),
    {
        if self.steps_within(to) {
            self.step().horizon_state(to)
        } else {
            self
        }
    }
}

impl TimerModel {
    /// Advancing never moves `next_time` backwards.
    pub proof fn lemma_horizon_state_ahead(self, to: int)
        requires
            self.interval >= 0,
        ensures
            self.horizon_state(to).next_time >= self.next_time,
            self.horizon_state(to).interval == self.interval,
        decreases self.distance_to(to),
    {
        if self.steps_within(to) {
            self.step().lemma_horizon_state_ahead(to);
        }
    }
}

/// The capability that every timer offers, whether driven by a clock or by
/// explicit steps.
pub trait Timer: Sized {
    fn new(
        name: String,
        interval_ns: Timedelta,
        start_time_ns: Timestamp,
        stop_time_ns: Option<Timestamp>,
    ) -> Self;

    fn pop_event(&self, event_id: UUID4, ts_init: Timestamp) -> TimeEvent;

    fn iterate_next_time(&mut self, ts_now: Timestamp);

    fn cancel(&mut self);
}

/// A deterministic timer, driven by explicit steps rather than a clock.
pub struct TestTimer {
    name: String,
    interval_ns: Timedelta,
    start_time_ns: Timestamp,
    stop_time_ns: Option<Timestamp>,
    pub next_time_ns: Timestamp,
    pub is_expired: bool,
}

impl View for TestTimer {
    type V = TimerModel;

    closed spec fn view(&self) -> TimerModel {
        TimerModel {
            name: self.name@,
            interval: self.interval_ns as int,
            start_time: self.start_time_ns as int,
            stop_time: opt_time(self.stop_time_ns),
            next_time: self.next_time_ns as int,
            expired: self.is_expired,
        }
    }
}

impl TestTimer {
    /// The interval is never negative.
    pub open spec fn wf(&self) -> bool {
        self@.interval >= 0
    }

    /// Whether the next step fits `next_time` in a timestamp.
    pub open spec fn can_step(&self) -> bool {
        !self@.expired ==> self@.next_time + self@.interval <= u64::MAX
    }

    /// A timer whose first event falls one interval after `start_time_ns`.
    pub fn new(
        name: String,
        interval_ns: Timedelta,
        start_time_ns: Timestamp,
        stop_time_ns: Option<Timestamp>,
    ) -> (r: Self)
        requires
            interval_ns >= 0,
            start_time_ns + interval_ns <= u64::MAX,
        ensures
            r.wf(),
            r@ == TimerModel::initial(name@, interval_ns as int, start_time_ns as int, opt_time(stop_time_ns)),
    {
        TestTimer {
            name,
            interval_ns,
            start_time_ns,
            stop_time_ns,
            next_time_ns: start_time_ns + interval_ns as u64,
            is_expired: false,
        }
    }

    /// A timer as `new` makes it, or `None` where the interval is not positive
    /// or the first event would fall past the largest timestamp.
    pub fn try_new(
        name: String,
        interval_ns: Timedelta,
        start_time_ns: Timestamp,
        stop_time_ns: Option<Timestamp>,
    ) -> (r: Option<Self>)
        ensures
            r is Some <==> (interval_ns > 0 && start_time_ns + interval_ns <= u64::MAX),
            r matches Some(t) ==> t.wf() && t@ == TimerModel::initial(
                name@,
                interval_ns as int,
                start_time_ns as int,
                opt_time(stop_time_ns),
            ),
    {
        if interval_ns <= 0 || start_time_ns > u64::MAX - interval_ns as u64 {
            None
        } else {
            Some(TestTimer::new(name, interval_ns, start_time_ns, stop_time_ns))
        }
    }

    /// The event for the current `next_time`, stamped with `ts_init`; the timer
    /// does not change.
    pub fn pop_event(&self, event_id: UUID4, ts_init: Timestamp) -> (r: TimeEvent)
        ensures
            r.name@ == self@.name,
            r.category == MessageCategory::EVENT,
            r.event_id == event_id,
            r.ts_event == self@.next_time,
            r.ts_init == ts_init,
    {
        TimeEvent::new(self.name.clone(), event_id, self.next_time_ns, ts_init)
    }

    /// Cancels the timer: no further event is produced.
    pub fn cancel(&mut self)
        ensures
            final(self)@ == old(self)@.cancelled(),
    {
        self.is_expired = true;
    }

    /// One step: `None` on an expired timer; otherwise the event at
    /// `next_time`, with that instant beside it.
    pub fn next(&mut self) -> (r: Option<(TimeEvent, Timestamp)>)
        requires
            old(self).wf(),
            old(self).can_step(),
        ensures
            final(self).wf(),
            final(self)@ == old(self)@.step(),
            r is Some <==> !old(self)@.expired,
            !old(self)@.expired ==> final(self)@.next_time == old(self)@.next_time + old(self)@.interval,
            r matches Some(p) ==> p.1 == old(self)@.next_time && is_timer_event(
                p.0,
                old(self)@.name,
                old(self)@.next_time,
            ) && version_of(p.0.event_id.value) == 4,
    {
        if self.is_expired {
            None
        } else {
            let t = self.next_time_ns;
            let event = TimeEvent::new(self.name.clone(), UUID4::new(), t, t);
            if let Some(stop_time_ns) = self.stop_time_ns {
                if t >= stop_time_ns {
                    self.is_expired = true;
                }
            }
            self.next_time_ns = t + self.interval_ns as u64;
            Some((event, t))
        }
    }

    /// One step within the horizon `to_time_ns`: the event at `next_time` when
    /// the timer is live and that instant is not past the horizon; otherwise
    /// `None`, with the timer left as it was.
    pub fn next_within(&mut self, to_time_ns: Timestamp) -> (r: Option<TimeEvent>)
        requires
            old(self).wf(),
            !old(self)@.expired && old(self)@.next_time <= to_time_ns ==> old(self)@.next_time
                + old(self)@.interval <= u64::MAX,
        ensures
            final(self).wf(),
            if !old(self)@.expired && old(self)@.next_time <= to_time_ns {
                &&& final(self)@ == old(self)@.step()
                &&& r matches Some(e) && is_timer_event(e, old(self)@.name, old(self)@.next_time)
            } else {
                final(self)@ == old(self)@ && r is None
            },
    {
        if self.is_expired || self.next_time_ns > to_time_ns {
            None
        } else {
            match self.next() {
                Some((event, _)) => Some(event),
                None => None,
            }
        }
    }

    /// Advances the timer to `to_time_ns`: the events of every step whose
    /// instant is not past the horizon, in order. The first step past the
    /// horizon is not taken, so a later call goes on from there.
    pub fn advance(&mut self, to_time_ns: Timestamp) -> (r: Vec<TimeEvent>)
        requires
            old(self).wf(),
            old(self)@.expired || old(self)@.interval > 0,
            old(self)@.horizon_state(to_time_ns as int).next_time <= u64::MAX,
        ensures
            final(self).wf(),
            final(self)@ == old(self)@.horizon_state(to_time_ns as int),
            are_timer_events(r@, old(self)@.name, old(self)@.horizon_events(to_time_ns as int)),
    {
        let ghost to = to_time_ns as int;
        let ghost start = self@;
        let ghost mut times: Seq<int> = Seq::empty();
        let mut events: Vec<TimeEvent> = Vec::new();
        loop
            invariant
                self.wf(),
                self@.name == start.name,
                self@.interval == start.interval,
                !self@.expired ==> self@.interval > 0,
                start == old(self)@,
                to == to_time_ns as int,
                start.horizon_state(to).next_time <= u64::MAX,
                start.horizon_state(to) == self@.horizon_state(to),
                start.horizon_events(to) == times + self@.horizon_events(to),
                are_timer_events(events@, start.name, times),
            ensures
                !self@.steps_within(to),
            decreases self@.distance_to(to),
        {
            let ghost before = self@;
            proof {
                if before.steps_within(to) {
                    before.step().lemma_horizon_state_ahead(to);
                }
            }
            match self.next_within(to_time_ns) {
                Some(event) => {
                    proof {
                        assert(before.steps_within(to));
                        assert(before.horizon_events(to) == seq![before.next_time] + self@.horizon_events(to));
                        assert(times + before.horizon_events(to) =~= times.push(before.next_time) + self@.horizon_events(to));
                        times = times.push(before.next_time);
                    }
                    events.push(event);
                },
                None => {
                    break;
                },
            }
        }
        proof {
            assert(times + self@.horizon_events(to) =~= times);
        }
        events
    }
}

} // verus!
