//! What comes of a runtime state over any course of observations and ticks.

use vstd::prelude::*;

use crate::clock::Instant;
use crate::config::BinaryState;
use crate::float::Double;
use crate::state::behaviour::{
    accepts, decides, elapsed, law_hold_keeps_everything_off,
    law_observing_touches_input_and_broken_timers, law_tick_desires_what_has_lasted,
    law_tick_judges_the_age_of_the_input, opposite, required, same_application, starts, timer,
};
use crate::state::machine::RuntimeState;

verus! {

/// Something that happens to a state.
pub enum Happening {
    /// A value is observed.
    Observed {
        /// The value.
        value: Double,
        /// When it is observed.
        at: Instant,
    },
    /// The state is ticked.
    Ticked {
        /// Time of the tick.
        now: Instant,
    },
}

/// The state after some happenings, one after the other.
pub open spec fn state_after(state: RuntimeState, course: Seq<Happening>) -> RuntimeState
    decreases course.len(),
{
    if course.len() == 0 {
        state
    } else {
        let before = state_after(state, course.drop_last());
        match course.last() {
            Happening::Observed { value, at } => before.observed(value, at),
            Happening::Ticked { now } => before.ticked(now).0,
        }
    }
}

/// Whether every value observed meets the condition of a target and not that of the other,
/// and every tick finds a state that decides, before the condition has lasted since `start`.
pub open spec fn steady(
    state: RuntimeState,
    course: Seq<Happening>,
    target: BinaryState,
    start: Instant,
) -> bool
    decreases course.len(),
{
    course.len() == 0 || {
        &&& steady(state, course.drop_last(), target, start)
        &&& match course.last() {
            Happening::Observed { value, .. } => accepts(state.config, target, value) && !accepts(
                state.config,
                opposite(target),
                value,
            ),
            Happening::Ticked { now } => decides(state_after(state, course.drop_last()), now)
                && elapsed(start, now) < required(state.config, target),
        }
    }
}

/// Whether the latest value meets the condition of a target and not that of the other.
pub open spec fn leans_to(state: RuntimeState, target: BinaryState) -> bool {
    &&& state.latest_value is Some
    &&& accepts(state.config, target, state.latest_value->0)
    &&& !accepts(state.config, opposite(target), state.latest_value->0)
}

/// Whether a state has nothing to do: nothing is desired that is not applied.
pub open spec fn content(state: RuntimeState) -> bool {
    state.desired_state is None || state.desired_state == state.applied_state
}

proof fn lemma_steady_keeps_the_timer(
    state: RuntimeState,
    course: Seq<Happening>,
    target: BinaryState,
    start: Instant,
)
    requires
        leans_to(state, target),
        content(state),
        timer(state, target) == Some(start),
        steady(state, course, target, start),
    ensures
        ({
            let after = state_after(state, course);
            &&& leans_to(after, target)
            &&& content(after)
            &&& timer(after, target) == Some(start)
            &&& after.config == state.config
            &&& after.desired_state == state.desired_state
            &&& after.applied_state == state.applied_state
        }),
    decreases course.len(),
{
    if course.len() > 0 {
        lemma_steady_keeps_the_timer(state, course.drop_last(), target, start);
        let before = state_after(state, course.drop_last());
        match course.last() {
            Happening::Observed { value, at } => {
                law_observing_touches_input_and_broken_timers(before, value, at);
                assert(accepts(before.config, target, value));
            },
            Happening::Ticked { now } => {
                law_tick_desires_what_has_lasted(before, now);
                law_tick_judges_the_age_of_the_input(before, now);
                assert(timer(before.ticked(now).0, target) == Some(start));
            },
        }
    }
}

/// A condition that holds without interruption for its duration fires its transition, however
/// many samples and ticks there are meanwhile. Its timer starts at the first tick that finds
/// it met, stays through every observation and tick, and the first tick that comes the
/// duration later makes its target desired and, unless it is applied already, begins its
/// sequence.
pub proof fn law_lasting_condition_fires(
    state: RuntimeState,
    start: Instant,
    course: Seq<Happening>,
    target: BinaryState,
    now: Instant,
)
    requires
        decides(state, start),
        leans_to(state, target),
        content(state),
        timer(state, target) is None,
        required(state.config, target) > 0,
        steady(state.ticked(start).0, course, target, start),
        decides(state_after(state.ticked(start).0, course), now),
        elapsed(start, now) >= required(state.config, target),
    ensures
        state.ticked(start).1 is Idle,
        timer(state.ticked(start).0, target) == Some(start),
        ({
            let before = state_after(state.ticked(start).0, course);
            let (after, decision) = before.ticked(now);
            &&& timer(before, target) == Some(start)
            &&& before.applied_state == state.applied_state
            &&& before.pending_target_state is None
            &&& after.desired_state == Some(target)
            &&& state.applied_state == Some(target) ==> decision is Idle
                && after.pending_target_state is None
            &&& state.applied_state != Some(target) ==> starts(
                before,
                after,
                decision,
                target,
                now,
            )
        }),
{
    let first = state.ticked(start).0;
    law_tick_desires_what_has_lasted(state, start);
    law_tick_judges_the_age_of_the_input(state, start);
    assert(timer(first, target) == Some(start));
    lemma_steady_keeps_the_timer(first, course, target, start);
    let before = state_after(first, course);
    law_tick_desires_what_has_lasted(before, now);
}

/// A timer that runs, and whose condition every observed value meets, still counts from its
/// start when a later tick finds that it has lasted.
pub proof fn law_running_timer_fires(
    state: RuntimeState,
    start: Instant,
    course: Seq<Happening>,
    target: BinaryState,
    now: Instant,
)
    requires
        leans_to(state, target),
        content(state),
        timer(state, target) == Some(start),
        steady(state, course, target, start),
        decides(state_after(state, course), now),
        elapsed(start, now) >= required(state.config, target),
    ensures
        ({
            let before = state_after(state, course);
            let (after, decision) = before.ticked(now);
            &&& timer(before, target) == Some(start)
            &&& after.desired_state == Some(target)
            &&& state.applied_state == Some(target) ==> decision is Idle
            &&& state.applied_state != Some(target) ==> starts(
                before,
                after,
                decision,
                target,
                now,
            )
        }),
{
    lemma_steady_keeps_the_timer(state, course, target, start);
    law_tick_desires_what_has_lasted(state_after(state, course), now);
}

/// Whether all ticks of a course come before a time.
pub open spec fn ticks_before(course: Seq<Happening>, end: Instant) -> bool {
    forall|i: int|
        0 <= i < course.len() ==> ((#[trigger] course[i]) matches Happening::Ticked { now }
            ==> now.nanos < end.nanos)
}

/// While a hold is in force, no course of observations and ticks begins a sequence or changes
/// what is applied, and the hold stays as it is.
pub proof fn law_hold_outlasts_every_course(
    state: RuntimeState,
    course: Seq<Happening>,
    end: Instant,
    now: Instant,
)
    requires
        state.pending_target_state is None,
        state.hold_until == Some(end),
        content(state) || (state.latest_value is Some && state.latest_sample_at is Some),
        ticks_before(course, end),
        now.nanos < end.nanos,
    ensures
        ({
            let after = state_after(state, course);
            &&& after.pending_target_state is None
            &&& same_application(after, state)
            &&& after.ticked(now).1 is Idle
            &&& after.ticked(now).0.pending_target_state is None
        }),
{
    lemma_held(state, course, end);
    law_hold_keeps_everything_off(state_after(state, course), now);
}

proof fn lemma_held(state: RuntimeState, course: Seq<Happening>, end: Instant)
    requires
        state.pending_target_state is None,
        state.hold_until == Some(end),
        content(state) || (state.latest_value is Some && state.latest_sample_at is Some),
        ticks_before(course, end),
    ensures
        ({
            let after = state_after(state, course);
            &&& after.pending_target_state is None
            &&& same_application(after, state)
            &&& content(after) || (after.latest_value is Some && after.latest_sample_at is Some)
        }),
    decreases course.len(),
{
    if course.len() > 0 {
        assert forall|i: int| 0 <= i < course.drop_last().len() implies (
        (#[trigger] course.drop_last()[i]) matches Happening::Ticked { now } ==> now.nanos
            < end.nanos) by {
            assert(course.drop_last()[i] == course[i]);
        }
        lemma_held(state, course.drop_last(), end);
        let before = state_after(state, course.drop_last());
        match course.last() {
            Happening::Observed { value, at } => {
                law_observing_touches_input_and_broken_timers(before, value, at);
            },
            Happening::Ticked { now } => {
                assert(course[course.len() - 1] == course.last());
                law_hold_keeps_everything_off(before, now);
            },
        }
    }
}

} // verus!
