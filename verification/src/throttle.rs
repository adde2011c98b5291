//! The input throttle: keys are polled far more often than the view should
//! move, so an action is accepted only when more than a set interval has
//! passed since it was last accepted. Times and the interval are counts of
//! one and the same unit, whichever the clock of the caller gives.

use vstd::prelude::*;

verus! {

/// The time from `last` to `now`, none where the clock reads earlier than `last`.
pub open spec fn elapsed(last: u64, now: u64) -> int {
    if now >= last {
        now - last
    } else {
        0
    }
}

/// Whether strictly more than `interval` lies between `last` and `now`.
pub open spec fn interval_passed(last: u64, interval: u64, now: u64) -> bool {
    elapsed(last, now) > interval
}

/// Whether strictly more than `interval` lies between `last` and `now`.
pub fn has_interval_passed(last: u64, interval: u64, now: u64) -> (passed: bool)
    ensures
        passed == interval_passed(last, interval, now),
    no_unwind
{
    now >= last && now - last > interval
}

/// What a throttle is, seen from outside.
pub struct ThrottleView {
    /// The least time between two accepted events, exclusive.
    pub interval: u64,
    /// When an event was last accepted.
    pub last_accepted: u64,
}

impl ThrottleView {
    /// Whether an event at `now` is accepted.
    pub open spec fn accepts(self, now: u64) -> bool {
        interval_passed(self.last_accepted, self.interval, now)
    }

    /// The throttle after an event at `now`: an accepted event becomes the
    /// last accepted one, an ignored event leaves no trace.
    pub open spec fn after(self, now: u64) -> ThrottleView {
        if self.accepts(now) {
            ThrottleView { interval: self.interval, last_accepted: now }
        } else {
            self
        }
    }

    /// The throttle after the events at `times`, issued in that order.
    pub open spec fn after_all(self, times: Seq<u64>) -> ThrottleView
        decreases times.len(),
    {
        if times.len() == 0 {
            self
        } else {
            self.after(times[0]).after_all(times.drop_first())
        }
    }

    /// How many of the events at `times`, issued in that order, are accepted.
    pub open spec fn accepted_count(self, times: Seq<u64>) -> nat
        decreases times.len(),
    {
        if times.len() == 0 {
            0
        } else {
            let here: nat = if self.accepts(times[0]) {
                1
            } else {
                0
            };
            here + self.after(times[0]).accepted_count(times.drop_first())
        }
    }
}

/// The rate limiter of one class of input actions.
pub struct InputThrottle {
    interval: u64,
    last_accepted: u64,
}

impl View for InputThrottle {
    type V = ThrottleView;

    closed spec fn view(&self) -> ThrottleView {
        ThrottleView { interval: self.interval, last_accepted: self.last_accepted }
    }
}

impl InputThrottle {
    /// A throttle that lets an action through when more than `interval` has
    /// passed, counting from `now`.
    pub fn new(interval: u64, now: u64) -> (throttle: InputThrottle)
        ensures
            throttle@ == (ThrottleView { interval, last_accepted: now }),
    {
        InputThrottle { interval, last_accepted: now }
    }

    /// The least time between two accepted events, exclusive.
    pub fn interval(&self) -> (interval: u64)
        ensures
            interval == self@.interval,
    {
        self.interval
    }

    /// When an event was last accepted.
    pub fn last_accepted(&self) -> (last_accepted: u64)
        ensures
            last_accepted == self@.last_accepted,
    {
        self.last_accepted
    }

    /// Takes an event polled at `now` and says whether its action is to be
    /// applied: it is when more than the interval has passed since the last
    /// accepted event, and `now` is then the time of the last accepted event.
    /// An ignored event changes nothing.
    pub fn accept(&mut self, now: u64) -> (accepted: bool)
        ensures
            accepted == old(self)@.accepts(now),
            final(self)@ == old(self)@.after(now),
        no_unwind
    {
        if has_interval_passed(self.last_accepted, self.interval, now) {
            self.last_accepted = now;
            true
        } else {
            false
        }
    }
}

/// Two accepted events are never closer together than the interval: an event
/// that is accepted right after another accepted one comes more than the
/// interval later.
pub proof fn lemma_accepted_events_are_spaced(throttle: ThrottleView, first: u64, second: u64)
    requires
        throttle.accepts(first),
        throttle.after(first).accepts(second),
    ensures
        second - first > throttle.interval,
{
}

/// Events that no time separates from the last accepted one by more than the
/// interval are all ignored, and the throttle stays as it is.
pub proof fn lemma_early_events_ignored(throttle: ThrottleView, times: Seq<u64>)
    requires
        forall|i: int| 0 <= i < times.len() ==> !throttle.accepts(#[trigger] times[i]),
    ensures
        throttle.accepted_count(times) == 0,
        throttle.after_all(times) == throttle,
    decreases times.len(),
{
    if times.len() > 0 {
        let rest = times.drop_first();
        assert forall|i: int| 0 <= i < rest.len() implies !throttle.accepts(
            #[trigger] rest[i],
        ) by {
            assert(rest[i] == times[i + 1]);
        }
        lemma_early_events_ignored(throttle, rest);
    }
}

/// However many events are issued inside a window no longer than the
/// interval that starts at `start`, at most one of them is accepted.
pub proof fn lemma_burst_accepts_at_most_one(throttle: ThrottleView, start: u64, times: Seq<u64>)
    requires
        forall|i: int|
            0 <= i < times.len() ==> start <= #[trigger] times[i] && times[i] - start
                <= throttle.interval,
    ensures
        throttle.accepted_count(times) <= 1,
    decreases times.len(),
{
    if times.len() > 0 {
        let rest = times.drop_first();
        assert forall|i: int| 0 <= i < rest.len() implies start <= #[trigger] rest[i] && rest[i]
            - start <= throttle.interval by {
            assert(rest[i] == times[i + 1]);
        }
        if throttle.accepts(times[0]) {
            let next = throttle.after(times[0]);
            assert forall|i: int| 0 <= i < rest.len() implies !next.accepts(#[trigger] rest[i]) by {
                assert(rest[i] == times[i + 1]);
            }
            lemma_early_events_ignored(next, rest);
        } else {
            lemma_burst_accepts_at_most_one(throttle, start, rest);
        }
    }
}

/// Events that are each more than the interval after the one before, the
/// first of them more than the interval after the last accepted event, are
/// accepted one and all.
pub proof fn lemma_spaced_events_all_accepted(throttle: ThrottleView, times: Seq<u64>)
    requires
        times.len() > 0 ==> throttle.accepts(times[0]),
        forall|i: int, j: int|
            0 <= i && j == i + 1 && j < times.len() ==> interval_passed(
                #[trigger] times[i],
                throttle.interval,
                #[trigger] times[j],
            ),
    ensures
        throttle.accepted_count(times) == times.len(),
    decreases times.len(),
{
    if times.len() > 0 {
        let rest = times.drop_first();
        let next = throttle.after(times[0]);
        assert forall|i: int, j: int| 0 <= i && j == i + 1 && j < rest.len() implies interval_passed(
            #[trigger] rest[i],
            next.interval,
            #[trigger] rest[j],
        ) by {
            assert(rest[i] == times[i + 1]);
            assert(rest[j] == times[j + 1]);
        }
        if rest.len() > 0 {
            assert(rest[0] == times[1]);
            assert(interval_passed(times[0], throttle.interval, times[1]));
        }
        lemma_spaced_events_all_accepted(next, rest);
    }
}

} // verus!
