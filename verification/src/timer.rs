//! One-shot countdowns on entities, kept in `bevy`'s `Timer`.

use crate::protocol::PlayerText;
use bevy::time::Timer;
use bevy::time::TimerMode;
use std::time::Duration;
use vstd::prelude::*;

verus! {

/// Nanoseconds in one second.
pub const NANOS_PER_SECOND: u64 = 1_000_000_000;

/// `bevy::time::Timer`, carried as an opaque value: what the library knows
/// of a timer it knows through the names below.
#[verifier::external_type_specification]
#[verifier::external_body]
pub struct ExTimer(Timer);

/// What `Timer::elapsed` returns, in nanoseconds.
pub uninterp spec fn timer_elapsed(t: Timer) -> nat;

/// What `Timer::duration` returns, in nanoseconds.
pub uninterp spec fn timer_duration(t: Timer) -> nat;

/// What `Timer::finished` returns.
pub uninterp spec fn timer_finished(t: Timer) -> bool;

/// What `Timer::paused` returns.
pub uninterp spec fn timer_paused(t: Timer) -> bool;

/// Whether `Timer::mode` returns `TimerMode::Repeating`.
pub uninterp spec fn timer_repeating(t: Timer) -> bool;

/// `Timer::new` with `TimerMode::Once`: the new timer has the given duration,
/// no elapsed time, is not finished and not paused.
#[verifier::external_body]
fn timer_new_once(seconds: u32) -> (t: Timer)
    ensures
        timer_duration(t) == seconds as nat * NANOS_PER_SECOND as nat,
        timer_elapsed(t) == 0,
        !timer_finished(t),
        !timer_paused(t),
        !timer_repeating(t),
{
    Timer::new(Duration::from_secs(seconds as u64), TimerMode::Once)
}

/// `Timer::tick` on a running one-shot timer. A finished timer is left as it
/// is. Otherwise the elapsed time grows by `delta_nanos`; once it reaches the
/// duration the timer is finished and the elapsed time is held at the
/// duration. Duration, mode and pause flag do not change.
#[verifier::external_body]
fn timer_tick(t: &mut Timer, delta_nanos: u64)
    requires
        !timer_paused(*old(t)),
        !timer_repeating(*old(t)),
        timer_elapsed(*old(t)) <= u64::MAX,
    ensures
        timer_duration(*final(t)) == timer_duration(*old(t)),
        timer_paused(*final(t)) == timer_paused(*old(t)),
        timer_repeating(*final(t)) == timer_repeating(*old(t)),
        timer_finished(*old(t)) ==> timer_finished(*final(t)) && timer_elapsed(*final(t))
            == timer_elapsed(*old(t)),
        !timer_finished(*old(t)) ==> timer_finished(*final(t)) == (timer_elapsed(*old(t))
            + delta_nanos >= timer_duration(*old(t))),
        !timer_finished(*old(t)) && timer_elapsed(*old(t)) + delta_nanos >= timer_duration(
            *old(t),
        ) ==> timer_elapsed(*final(t)) == timer_duration(*old(t)),
        !timer_finished(*old(t)) && timer_elapsed(*old(t)) + delta_nanos < timer_duration(
            *old(t),
        ) ==> timer_elapsed(*final(t)) == timer_elapsed(*old(t)) + delta_nanos,
{
    t.tick(Duration::from_nanos(delta_nanos));
}

/// `Timer::finished`.
#[verifier::external_body]
fn timer_is_finished(t: &Timer) -> (b: bool)
    ensures
        b == timer_finished(*t),
{
    t.finished()
}

/// `Timer::elapsed`, in nanoseconds.
#[verifier::external_body]
fn timer_elapsed_nanos(t: &Timer) -> (nanos: u64)
    requires
        timer_elapsed(*t) <= u64::MAX,
    ensures
        nanos == timer_elapsed(*t),
{
    t.elapsed().as_nanos() as u64
}

/// `Timer::duration`, in nanoseconds.
#[verifier::external_body]
fn timer_duration_nanos(t: &Timer) -> (nanos: u64)
    requires
        timer_duration(*t) <= u64::MAX,
    ensures
        nanos == timer_duration(*t),
{
    t.duration().as_nanos() as u64
}

/// A one-shot countdown as a value, in nanoseconds.
pub struct TimerView {
    pub elapsed: nat,
    pub duration: nat,
    pub finished: bool,
}

impl TimerView {
    /// A countdown of `duration` that has not started.
    pub open spec fn armed(duration: nat) -> TimerView {
        TimerView { elapsed: 0, duration, finished: false }
    }

    /// The elapsed time never passes the duration, and a finished countdown
    /// stands at its duration.
    pub open spec fn wf(self) -> bool {
        &&& self.elapsed <= self.duration <= u64::MAX
        &&& self.finished ==> self.elapsed == self.duration
    }

    /// The countdown after `delta` more nanoseconds: a finished one stays as
    /// it is, another one finishes when it reaches its duration.
    pub open spec fn tick(self, delta: nat) -> TimerView {
        if self.finished {
            self
        } else if self.elapsed + delta >= self.duration {
            TimerView { elapsed: self.duration, duration: self.duration, finished: true }
        } else {
            TimerView { elapsed: self.elapsed + delta, duration: self.duration, finished: false }
        }
    }
}

/// A countdown that an entity carries until it fires.
pub struct TimerComponent(Timer);

impl View for TimerComponent {
    type V = TimerView;

    closed spec fn view(&self) -> TimerView {
        TimerView {
            elapsed: timer_elapsed(self.0),
            duration: timer_duration(self.0),
            finished: timer_finished(self.0),
        }
    }
}

impl TimerComponent {
    /// The countdown runs, runs once, and its value is well formed.
    pub closed spec fn wf(&self) -> bool {
        &&& !timer_paused(self.0)
        &&& !timer_repeating(self.0)
        &&& self@.wf()
    }

    /// A countdown of the given number of seconds that has not started.
    pub fn from_seconds(seconds: u32) -> (timer: Self)
        ensures
            timer.wf(),
            timer@ == TimerView::armed(seconds as nat * NANOS_PER_SECOND as nat),
    {
        assert(seconds as nat * NANOS_PER_SECOND as nat <= u64::MAX) by (nonlinear_arith)
            requires
                seconds <= u32::MAX,
                NANOS_PER_SECOND == 1_000_000_000,
        ;
        TimerComponent(timer_new_once(seconds))
    }

    /// Advances the countdown.
    pub fn tick(&mut self, delta_nanos: u64)
        requires
            old(self).wf(),
        ensures
            final(self).wf(),
            final(self)@ == old(self)@.tick(delta_nanos as nat),
    {
        timer_tick(&mut self.0, delta_nanos);
    }

    pub fn finished(&self) -> (done: bool)
        ensures
            done == self@.finished,
    {
        timer_is_finished(&self.0)
    }

    /// How long the countdown has run, in nanoseconds.
    pub fn elapsed_nanos(&self) -> (nanos: u64)
        requires
            self.wf(),
        ensures
            nanos == self@.elapsed,
    {
        timer_elapsed_nanos(&self.0)
    }

    /// How long the countdown runs in all, in nanoseconds.
    pub fn duration_nanos(&self) -> (nanos: u64)
        requires
            self.wf(),
        ensures
            nanos == self@.duration,
    {
        timer_duration_nanos(&self.0)
    }
}

/// The text that a fired timer leaves on its entity.
pub open spec fn fired_text() -> Seq<char> {
    "Server changed"@
}

/// The text of an entity and the timer that it may carry, as a value.
pub struct TimedText {
    pub text: Seq<char>,
    pub timer: Option<TimerView>,
}

impl TimedText {
    /// A carried timer is well formed and has not finished.
    pub open spec fn wf(self) -> bool {
        self.timer matches Some(t) ==> t.wf() && !t.finished
    }

    /// Whether the timer fires when `delta` more nanoseconds pass.
    pub open spec fn fires(self, delta: nat) -> bool {
        self.timer matches Some(t) && t.tick(delta).finished
    }

    /// The entity after `delta` more nanoseconds: a timer that fires rewrites
    /// the text and leaves the entity; an entity without a timer is
    /// untouched.
    pub open spec fn check(self, delta: nat) -> TimedText {
        match self.timer {
            Some(t) => if t.tick(delta).finished {
                TimedText { text: fired_text(), timer: None }
            } else {
                TimedText { text: self.text, timer: Some(t.tick(delta)) }
            },
            None => self,
        }
    }

    /// The entity after the given ticks, in order.
    pub open spec fn run(self, deltas: Seq<nat>) -> TimedText
        decreases deltas.len(),
    {
        if deltas.len() == 0 {
            self
        } else {
            self.run(deltas.drop_last()).check(deltas.last())
        }
    }

    /// How often the timer fires over the given ticks.
    pub open spec fn fire_count(self, deltas: Seq<nat>) -> nat
        decreases deltas.len(),
    {
        if deltas.len() == 0 {
            0
        } else {
            self.fire_count(deltas.drop_last()) + if self.run(deltas.drop_last()).fires(
                deltas.last(),
            ) {
                1nat
            } else {
                0nat
            }
        }
    }
}

/// The sum of the given tick lengths.
pub open spec fn total(deltas: Seq<nat>) -> nat
    decreases deltas.len(),
{
    if deltas.len() == 0 {
        0
    } else {
        total(deltas.drop_last()) + deltas.last()
    }
}

/// The pair of a text and a timer slot as a value.
pub open spec fn timed_text(text: PlayerText, timer: Option<TimerComponent>) -> TimedText {
    TimedText {
        text: text.0@,
        timer: match timer {
            Some(t) => Some(t@),
            None => None,
        },
    }
}

/// A carried timer is well formed and has not finished.
pub open spec fn slot_wf(timer: Option<TimerComponent>) -> bool {
    timer matches Some(t) ==> t.wf() && !t@.finished
}

/// An entity that carries a timer which has not finished, ticked at least
/// once: the timer fires exactly once if the ticks add up to what was left
/// of its duration, and then it is gone and the text is rewritten;
/// otherwise it does not fire, is still carried, and the text is as before.
pub proof fn lemma_timer_fires_once(slot: TimedText, deltas: Seq<nat>)
    requires
        slot.wf(),
        slot.timer is Some,
        deltas.len() > 0,
    ensures
        slot.run(deltas).wf(),
        slot.timer->0.elapsed + total(deltas) >= slot.timer->0.duration ==> {
            &&& slot.fire_count(deltas) == 1
            &&& slot.run(deltas).timer is None
            &&& slot.run(deltas).text == fired_text()
        },
        slot.timer->0.elapsed + total(deltas) < slot.timer->0.duration ==> {
            &&& slot.fire_count(deltas) == 0
            &&& slot.run(deltas) == (TimedText {
                text: slot.text,
                timer: Some(
                    TimerView {
                        elapsed: slot.timer->0.elapsed + total(deltas),
                        ..slot.timer->0
                    },
                ),
            })
        },
    decreases deltas.len(),
{
    let rest = deltas.drop_last();
    if rest.len() == 0 {
        assert(total(rest) == 0);
        assert(slot.run(rest) == slot);
        assert(slot.fire_count(rest) == 0);
    } else {
        lemma_timer_fires_once(slot, rest);
    }
}

/// An entity without a timer never fires and never changes.
pub proof fn lemma_no_timer_never_fires(slot: TimedText, deltas: Seq<nat>)
    requires
        slot.timer is None,
    ensures
        slot.fire_count(deltas) == 0,
        slot.run(deltas) == slot,
    decreases deltas.len(),
{
    if deltas.len() > 0 {
        lemma_no_timer_never_fires(slot, deltas.drop_last());
    }
}

/// Advances the timer that an entity may carry. When it fires, the text is
/// rewritten and the timer is taken off the entity.
pub fn check_timer(text: &mut PlayerText, timer: &mut Option<TimerComponent>, delta_nanos: u64) -> (fired:
    bool)
    requires
        slot_wf(*old(timer)),
    ensures
        slot_wf(*final(timer)),
        timed_text(*final(text), *final(timer)) == timed_text(*old(text), *old(timer)).check(
            delta_nanos as nat,
        ),
        fired == timed_text(*old(text), *old(timer)).fires(delta_nanos as nat),
{
    match timer.take() {
        Some(mut carried) => {
            carried.tick(delta_nanos);
            if carried.finished() {
                text.0 = String::from_str("Server changed");
                true
            } else {
                *timer = Some(carried);
                false
            }
        },
        None => false,
    }
}

} // verus!
