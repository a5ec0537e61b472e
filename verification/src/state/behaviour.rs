//! What each operation on a runtime state does, told by what can be seen before and after.

use vstd::arithmetic::power2::pow2;
use vstd::prelude::*;

use crate::clock::{nanos_since, Duration, Instant};
use crate::config::{ActionStepConfig, BinaryState, StateConfig, WaitTimeoutPolicy};
use crate::float::Double;
use crate::state::condition::satisfies;
use crate::state::machine::{
    backoff_nanos, fresh, ActionOutcome, RuntimeState, TickDecision,
};
use crate::state::properties::{law_backoff_doubles_up_to_the_maximum, lemma_stepped};

verus! {

/// Nanoseconds from `from` to `to`, none if `to` comes first.
pub open spec fn elapsed(from: Instant, to: Instant) -> int {
    if to.nanos > from.nanos {
        to.nanos - from.nanos
    } else {
        0
    }
}

/// The steps that a configuration gives to a target: its sequence, or the one request of its
/// single URL.
pub open spec fn sequence(config: StateConfig, target: BinaryState) -> Seq<ActionStepConfig> {
    let transition = if target == BinaryState::On {
        config.on
    } else {
        config.off
    };
    if transition.url is Some {
        Seq::empty().push(ActionStepConfig::Request { method: None, url: transition.url->0 })
    } else {
        transition.actions@
    }
}

/// Whether two states agree in everything about the sequence that is under way.
pub open spec fn same_progress(a: RuntimeState, b: RuntimeState) -> bool {
    &&& a.pending_target_state == b.pending_target_state
    &&& a.action_step_index == b.action_step_index
    &&& a.step_started_at == b.step_started_at
    &&& a.retry_attempt == b.retry_attempt
    &&& a.next_retry_at == b.next_retry_at
}

/// Whether two states agree on what is applied and on its hold.
pub open spec fn same_application(a: RuntimeState, b: RuntimeState) -> bool {
    &&& a.applied_state == b.applied_state
    &&& a.hold_until == b.hold_until
}

/// Whether two states agree on their input.
pub open spec fn same_input(a: RuntimeState, b: RuntimeState) -> bool {
    &&& a.config == b.config
    &&& a.serial == b.serial
    &&& a.latest_value == b.latest_value
    &&& a.latest_sample_at == b.latest_sample_at
}

/// Whether two states agree on what the last attempt came to.
pub open spec fn same_report(a: RuntimeState, b: RuntimeState) -> bool {
    &&& a.last_http_status == b.last_http_status
    &&& a.last_http_error == b.last_http_error
    &&& a.last_success_at == b.last_success_at
}

/// Whether two states have the same timers.
pub open spec fn same_timers(a: RuntimeState, b: RuntimeState) -> bool {
    &&& a.on_condition_started_at == b.on_condition_started_at
    &&& a.off_condition_started_at == b.off_condition_started_at
}

/// Whether a state has a fresh value to decide upon: a sample no older than the age limit,
/// no sequence under way and no hold in force.
pub open spec fn decides(state: RuntimeState, now: Instant) -> bool {
    &&& state.pending_target_state is None
    &&& state.latest_value is Some
    &&& state.latest_sample_at is Some
    &&& elapsed(state.latest_sample_at->0, now) <= state.config.stale_after.nanos
    &&& state.hold_until is None || state.hold_until->0.nanos <= now.nanos
}

/// The timer of a target.
pub open spec fn timer(state: RuntimeState, target: BinaryState) -> Option<Instant> {
    if target == BinaryState::On {
        state.on_condition_started_at
    } else {
        state.off_condition_started_at
    }
}

/// Whether the threshold of a target accepts a value.
pub open spec fn accepts(config: StateConfig, target: BinaryState, value: Double) -> bool {
    if target == BinaryState::On {
        satisfies(config.on, value)
    } else {
        satisfies(config.off, value)
    }
}

/// The time for which the condition of a target has to hold.
pub open spec fn required(config: StateConfig, target: BinaryState) -> int {
    if target == BinaryState::On {
        config.on.duration.nanos as int
    } else {
        config.off.duration.nanos as int
    }
}

/// The time for which a target that was applied holds off the next transition.
pub open spec fn hold_time(config: StateConfig, target: BinaryState) -> int {
    if target == BinaryState::On {
        config.on.hold_for.nanos as int
    } else {
        config.off.hold_for.nanos as int
    }
}

/// The other target.
pub open spec fn opposite(target: BinaryState) -> BinaryState {
    if target == BinaryState::On {
        BinaryState::Off
    } else {
        BinaryState::On
    }
}

/// Whether the condition of a target is met by the latest value and has been for its
/// duration, where one that was not timed yet is timed from now on.
pub open spec fn lasted(state: RuntimeState, target: BinaryState, now: Instant) -> bool {
    &&& accepts(state.config, target, state.latest_value->0)
    &&& match timer(state, target) {
        Some(start) => elapsed(start, now) >= required(state.config, target),
        None => required(state.config, target) == 0,
    }
}

/// Whether the sequence of a target has just begun.
pub open spec fn begun(state: RuntimeState, target: BinaryState, now: Instant) -> bool {
    &&& state.pending_target_state == Some(target)
    &&& state.action_step_index == 0
    &&& state.step_started_at == Some(now)
    &&& state.retry_attempt == 0
    &&& state.next_retry_at is None
}

/// Whether a target has just been applied: nothing is under way, no timer runs and the next
/// transition is held off for the time that its configuration asks for.
pub open spec fn just_applied(state: RuntimeState, target: BinaryState, now: Instant) -> bool {
    &&& state.applied_state == Some(target)
    &&& state.desired_state == Some(target)
    &&& state.pending_target_state is None
    &&& state.action_step_index == 0
    &&& state.step_started_at is None
    &&& state.retry_attempt == 0
    &&& state.next_retry_at is None
    &&& state.on_condition_started_at is None
    &&& state.off_condition_started_at is None
    &&& state.hold_until is Some
    &&& now.nanos + hold_time(state.config, target) <= u128::MAX ==> state.hold_until->0.nanos
        == now.nanos + hold_time(state.config, target)
}

proof fn lemma_sequence(state: RuntimeState, target: BinaryState)
    ensures
        state.steps(target) == sequence(state.config, target),
        state.steps(target).len() <= usize::MAX,
{
    state.lemma_step_count_fits(target);
    assert(state.steps(target) =~= sequence(state.config, target));
}

/// A new state has its configuration and serial, and knows nothing else.
pub proof fn law_new_state_knows_nothing(config: StateConfig, serial: u64)
    ensures
        ({
            let state = fresh(config, serial);
            &&& state.config == config
            &&& state.serial == serial
            &&& state.latest_value is None
            &&& state.latest_sample_at is None
            &&& state.desired_state is None
            &&& state.applied_state is None
            &&& state.pending_target_state is None
            &&& state.on_condition_started_at is None
            &&& state.off_condition_started_at is None
            &&& state.retry_attempt == 0
            &&& state.action_step_index == 0
            &&& state.step_started_at is None
            &&& state.next_retry_at is None
            &&& state.hold_until is None
            &&& state.last_http_status is None
            &&& state.last_http_error is None
            &&& state.last_success_at is None
            &&& !state.stale
            &&& !state.ambiguous
        }),
{
}

/// Observing a value stores it with its time and clears the timers of the conditions that it
/// breaks. A timer whose condition it meets goes on, and nothing else changes.
pub proof fn law_observing_touches_input_and_broken_timers(
    state: RuntimeState,
    value: Double,
    now: Instant,
)
    ensures
        ({
            let after = state.observed(value, now);
            &&& after.latest_value == Some(value)
            &&& after.latest_sample_at == Some(now)
            &&& forall|target: BinaryState| #[trigger]
                accepts(state.config, target, value) ==> timer(after, target) == timer(
                    state,
                    target,
                )
            &&& forall|target: BinaryState|
                !#[trigger] accepts(state.config, target, value) ==> timer(after, target) is None
            &&& after.config == state.config
            &&& after.serial == state.serial
            &&& after.desired_state == state.desired_state
            &&& after.stale == state.stale
            &&& after.ambiguous == state.ambiguous
            &&& same_progress(after, state)
            &&& same_application(after, state)
            &&& same_report(after, state)
        }),
{
}

/// A tick marks the input stale exactly when its sample is older than the age limit, and
/// then nothing is desired.
pub proof fn law_tick_judges_the_age_of_the_input(state: RuntimeState, now: Instant)
    ensures
        ({
            let after = state.ticked(now).0;
            &&& same_input(after, state)
            &&& same_report(after, state)
            &&& state.latest_sample_at is None ==> after.stale == state.stale
            &&& state.latest_sample_at matches Some(at) ==> after.stale == (elapsed(at, now)
                > state.config.stale_after.nanos)
            &&& state.latest_sample_at is Some && after.stale && state.pending_target_state is None
                && state.latest_value is Some ==> {
                &&& state.ticked(now).1 is Idle
                &&& after.desired_state is None
                &&& same_progress(after, state)
                &&& same_application(after, state)
                &&& same_timers(after, state)
            }
        }),
{
    lemma_ticked_keeps_input(state, now);
}

proof fn lemma_ticked_keeps_input(state: RuntimeState, now: Instant)
    ensures
        ({
            let after = state.ticked(now).0;
            &&& same_input(after, state)
            &&& same_report(after, state)
            &&& after.stale == state.aged(now).stale
        }),
{
    let aged = state.aged(now);
    let qualified = aged.qualified(state.latest_value->0, now);
    if state.pending_target_state is Some {
        lemma_stepped(aged, now);
        lemma_stepped_keeps_report(aged, now);
    } else {
        if aged.desired_state is Some {
            lemma_stepped(aged.started(aged.desired_state->0, now), now);
            lemma_stepped_keeps_report(aged.started(aged.desired_state->0, now), now);
        }
        if qualified.desired_state is Some {
            lemma_stepped(qualified.started(qualified.desired_state->0, now), now);
            lemma_stepped_keeps_report(qualified.started(qualified.desired_state->0, now), now);
        }
    }
}

proof fn lemma_stepped_keeps_report(state: RuntimeState, now: Instant)
    ensures
        same_report(state.stepped(now).0, state),
    decreases state.steps_left(),
{
    match state.step() {
        Some(ActionStepConfig::Delay { duration }) => {
            let target = state.pending_target_state->0;
            state.lemma_step_count_fits(target);
            let begun = RuntimeState {
                step_started_at: Some(state.step_start(now)),
                ..state
            };
            if nanos_since(now, state.step_start(now)) >= duration.nanos {
                lemma_stepped_keeps_report(begun.advanced(target, now), now);
            }
        },
        _ => {},
    }
}

/// While the last transition holds off the next one, a tick decides nothing, and no timer
/// runs. Nothing begins and nothing is forgotten but what a stale input takes away.
pub proof fn law_hold_keeps_everything_off(state: RuntimeState, now: Instant)
    requires
        state.pending_target_state is None,
        state.hold_until is Some,
        now.nanos < state.hold_until->0.nanos,
        state.desired_state is None || state.desired_state == state.applied_state || (
        state.latest_value is Some && state.latest_sample_at is Some),
    ensures
        ({
            let (after, decision) = state.ticked(now);
            &&& decision is Idle
            &&& after.pending_target_state is None
            &&& same_application(after, state)
            &&& same_input(after, state)
            &&& after.desired_state == state.desired_state || after.desired_state is None
            &&& state.latest_value is Some && state.latest_sample_at is Some && !after.stale ==> {
                &&& after.on_condition_started_at is None
                &&& after.off_condition_started_at is None
            }
        }),
{
}

/// What a tick makes of a fresh value: each condition that is met keeps its timer or starts
/// it, each one that is not met loses it. If exactly one condition has lasted, its target is
/// desired; if both have, nothing changes; if none is met and nothing was ever desired or
/// applied, the default is desired; else the desired state stays.
pub proof fn law_tick_desires_what_has_lasted(state: RuntimeState, now: Instant)
    requires
        decides(state, now),
    ensures
        ({
            let (after, decision) = state.ticked(now);
            let value = state.latest_value->0;
            let on = lasted(state, BinaryState::On, now);
            let off = lasted(state, BinaryState::Off, now);
            let neutral = !accepts(state.config, BinaryState::On, value) && !accepts(
                state.config,
                BinaryState::Off,
                value,
            );
            let wish = if on && !off {
                Some(BinaryState::On)
            } else if off && !on {
                Some(BinaryState::Off)
            } else if neutral && state.applied_state is None && state.desired_state is None {
                Some(state.config.default_state)
            } else {
                state.desired_state
            };
            &&& after.ambiguous == (on && off)
            &&& after.desired_state == wish
            &&& !after.stale
            &&& on && off || wish is None || wish == state.applied_state ==> {
                &&& decision is Idle
                &&& after.hold_until is None
                &&& after.applied_state == state.applied_state
                &&& same_progress(after, state)
                &&& times(state, after, now)
            }
            &&& !(on && off) && wish is Some && wish != state.applied_state ==> starts(
                state,
                after,
                decision,
                wish->0,
                now,
            )
        }),
{
    let aged = state.aged(now);
    let qualified = aged.qualified(state.latest_value->0, now);
    if !qualified.ambiguous && qualified.desired_state is Some && qualified.desired_state
        != qualified.applied_state {
        let target = qualified.desired_state->0;
        let started = qualified.started(target, now);
        lemma_stepped(started, now);
        lemma_sequence(started, target);
        lemma_first_step(started, now);
    }
}

/// Whether the timers are those after a look at the latest value.
pub open spec fn times(before: RuntimeState, after: RuntimeState, now: Instant) -> bool {
    forall|target: BinaryState| #[trigger]
        timer(after, target) == (if accepts(before.config, target, before.latest_value->0) {
            match timer(before, target) {
                Some(start) => Some(start),
                None => Some(now),
            }
        } else {
            None
        })
}

/// Whether the sequence of a target has begun, and its first step decides: a request or a
/// wait is attempted at once, unless the wait has no time at all; a delay takes its time;
/// and what is left of a sequence of elapsed delays is applied.
pub open spec fn starts(
    before: RuntimeState,
    after: RuntimeState,
    decision: TickDecision,
    target: BinaryState,
    now: Instant,
) -> bool {
    let steps = sequence(before.config, target);
    let applied = just_applied(after, target, now);
    &&& after.pending_target_state == Some(target) || applied
    &&& applied ==> forall|i: int| 0 <= i < steps.len() ==> #[trigger] steps[i] is Delay
    &&& !applied ==> after.applied_state == before.applied_state && after.hold_until is None
        && times(before, after, now)
    &&& steps.len() == 0 ==> begun(after, target, now) && decision is Idle
    &&& steps.len() > 0 && steps[0] is Request ==> begun(after, target, now) && decision
        == TickDecision::Attempt { target, step_index: 0 }
    &&& steps.len() > 0 && steps[0] is WaitForJson ==> begun(after, target, now) && decision == (
    if steps[0]->timeout.nanos == 0 {
        TickDecision::WaitTimedOut { target, step_index: 0 }
    } else {
        TickDecision::Attempt { target, step_index: 0 }
    })
    &&& steps.len() > 0 && steps[0] is Delay && steps[0]->duration.nanos > 0 ==> begun(
        after,
        target,
        now,
    ) && decision is Idle
}

proof fn lemma_first_step(state: RuntimeState, now: Instant)
    requires
        state.pending_target_state is Some,
        begun(state, state.pending_target_state->0, now),
    ensures
        ({
            let target = state.pending_target_state->0;
            let steps = sequence(state.config, target);
            let (after, decision) = state.stepped(now);
            &&& steps.len() == 0 ==> after == state && decision is Idle
            &&& steps.len() > 0 && steps[0] is Request ==> after == state && decision
                == TickDecision::Attempt { target, step_index: 0 }
            &&& steps.len() > 0 && steps[0] is WaitForJson ==> after == state && decision == (
            if steps[0]->timeout.nanos == 0 {
                TickDecision::WaitTimedOut { target, step_index: 0 }
            } else {
                TickDecision::Attempt { target, step_index: 0 }
            })
            &&& steps.len() > 0 && steps[0] is Delay && steps[0]->duration.nanos > 0 ==> after
                == state && decision is Idle
            &&& after.pending_target_state is None ==> just_applied(after, target, now)
        }),
{
    let target = state.pending_target_state->0;
    lemma_sequence(state, target);
    lemma_stepped(state, now);
    lemma_completed_now(state, now);
}

proof fn lemma_completed_now(state: RuntimeState, now: Instant)
    requires
        state.pending_target_state is Some,
    ensures
        state.stepped(now).0.pending_target_state is None ==> just_applied(
            state.stepped(now).0,
            state.pending_target_state->0,
            now,
        ),
    decreases state.steps_left(),
{
    match state.step() {
        Some(ActionStepConfig::Delay { duration }) => {
            let target = state.pending_target_state->0;
            state.lemma_step_count_fits(target);
            let begun = RuntimeState {
                step_started_at: Some(state.step_start(now)),
                ..state
            };
            if nanos_since(now, state.step_start(now)) >= duration.nanos {
                let next = begun.advanced(target, now);
                if next.pending_target_state is Some {
                    lemma_completed_now(next, now);
                }
            }
        },
        _ => {},
    }
}

/// Without a sample a tick looks at no threshold: it begins the sequence of a desired state
/// that is not applied, and else does nothing.
pub proof fn law_tick_without_sample_looks_at_no_threshold(state: RuntimeState, now: Instant)
    requires
        state.pending_target_state is None,
        state.latest_value is None,
        state.latest_sample_at is None,
    ensures
        ({
            let (after, decision) = state.ticked(now);
            let idle = state.desired_state is None || state.desired_state == state.applied_state;
            &&& after.desired_state == state.desired_state
            &&& after.ambiguous == state.ambiguous
            &&& after.stale == state.stale
            &&& idle ==> decision is Idle && after == state
            &&& !idle && sequence(state.config, state.desired_state->0).len() > 0 && sequence(
                state.config,
                state.desired_state->0,
            )[0] is Request ==> begun(after, state.desired_state->0, now) && decision
                == (TickDecision::Attempt { target: state.desired_state->0, step_index: 0 })
        }),
{
    if state.desired_state is Some && state.desired_state != state.applied_state {
        let started = state.aged(now).started(state.desired_state->0, now);
        lemma_first_step(started, now);
        lemma_stepped(started, now);
        lemma_sequence(started, state.desired_state->0);
    }
}

/// The step that a pending sequence is at decides a tick, whatever the input is. A request
/// is attempted unless its retry is still to come; so is a wait, until its time is up; a
/// delay is waited for. The progress stays as it is.
pub proof fn law_tick_follows_the_pending_step(state: RuntimeState, now: Instant)
    requires
        state.pending_target_state is Some,
        state.action_step_index < sequence(state.config, state.pending_target_state->0).len(),
        state.step_started_at is Some,
    ensures
        ({
            let (after, decision) = state.ticked(now);
            let target = state.pending_target_state->0;
            let step = sequence(state.config, target)[state.action_step_index as int];
            let attempt = TickDecision::Attempt { target, step_index: state.action_step_index };
            let timeout = TickDecision::WaitTimedOut {
                target,
                step_index: state.action_step_index,
            };
            let due = state.next_retry_at is None || state.next_retry_at->0.nanos <= now.nanos;
            let spent = elapsed(state.step_started_at->0, now);
            let waits = step is Delay && spent < step->duration.nanos;
            &&& step is Request ==> decision == (if due {
                attempt
            } else {
                TickDecision::Idle
            })
            &&& step is WaitForJson ==> decision == (if spent >= step->timeout.nanos {
                timeout
            } else if due {
                attempt
            } else {
                TickDecision::Idle
            })
            &&& waits ==> decision is Idle
            &&& !(step is Delay) || waits ==> {
                &&& same_progress(after, state)
                &&& same_application(after, state)
                &&& same_timers(after, state)
            }
            &&& after.ambiguous == state.ambiguous
            &&& same_input(after, state)
        }),
{
    let target = state.pending_target_state->0;
    lemma_sequence(state, target);
    lemma_sequence(state.aged(now), target);
    lemma_stepped(state.aged(now), now);
}

/// A delay that is over leads to the next step at once, which begins now: a request or a
/// wait is attempted, a further delay is waited for, and behind the last step the target is
/// applied.
pub proof fn law_elapsed_delay_leads_to_the_next_step(state: RuntimeState, now: Instant)
    requires
        state.pending_target_state is Some,
        state.action_step_index < sequence(state.config, state.pending_target_state->0).len(),
        sequence(
            state.config,
            state.pending_target_state->0,
        )[state.action_step_index as int] is Delay,
        state.step_started_at is Some,
        elapsed(state.step_started_at->0, now) >= sequence(
            state.config,
            state.pending_target_state->0,
        )[state.action_step_index as int]->duration.nanos,
    ensures
        ({
            let (after, decision) = state.ticked(now);
            let target = state.pending_target_state->0;
            let steps = sequence(state.config, target);
            let next = state.action_step_index + 1;
            &&& next == steps.len() ==> just_applied(after, target, now) && decision is Idle
            &&& next < steps.len() && steps[next] is Request ==> arrived(after, target, next, now)
                && decision == TickDecision::Attempt { target, step_index: next as usize }
            &&& next < steps.len() && steps[next] is WaitForJson && steps[next]->timeout.nanos > 0
                ==> arrived(after, target, next, now) && decision
                == TickDecision::Attempt { target, step_index: next as usize }
            &&& next < steps.len() && steps[next] is Delay && steps[next]->duration.nanos > 0
                ==> arrived(after, target, next, now) && decision is Idle
            &&& after.pending_target_state is Some ==> after.applied_state == state.applied_state
                && after.hold_until == state.hold_until
        }),
{
    let target = state.pending_target_state->0;
    let aged = state.aged(now);
    lemma_sequence(state, target);
    lemma_sequence(aged, target);
    lemma_stepped(aged, now);
    lemma_completed_now(aged, now);
    aged.lemma_step_count_fits(target);
    let begun = RuntimeState { step_started_at: Some(aged.step_start(now)), ..aged };
    let next = begun.advanced(target, now);
    assert(aged.stepped(now) == next.stepped(now));
}

/// Whether a sequence has just come to a step.
pub open spec fn arrived(
    state: RuntimeState,
    target: BinaryState,
    step: int,
    now: Instant,
) -> bool {
    &&& state.pending_target_state == Some(target)
    &&& state.action_step_index == step
    &&& state.step_started_at == Some(now)
    &&& state.retry_attempt == 0
    &&& state.next_retry_at is None
}

/// A success completes the current step: the next one begins now, or behind the last one
/// the target is applied and the next transition is held off from now on. A hold that was
/// in force before stays until then.
pub proof fn law_success_completes_the_step(
    state: RuntimeState,
    status: u16,
    now: Instant,
    initial: Duration,
    max: Duration,
)
    requires
        state.pending_target_state is Some,
    ensures
        ({
            let after = state.recorded(ActionOutcome::Success { status }, now, initial, max);
            let target = state.pending_target_state->0;
            let next = state.action_step_index + 1;
            &&& after.last_http_status == Some(status)
            &&& after.last_http_error is None
            &&& after.last_success_at == Some(now)
            &&& same_input(after, state)
            &&& after.stale == state.stale
            &&& after.ambiguous == state.ambiguous
            &&& next >= sequence(state.config, target).len() ==> just_applied(after, target, now)
            &&& next < sequence(state.config, target).len() ==> {
                &&& arrived(after, target, next, now)
                &&& same_application(after, state)
                &&& same_timers(after, state)
                &&& after.desired_state == state.desired_state
            }
        }),
{
    lemma_sequence(state, state.pending_target_state->0);
}

/// A failure changes nothing but when the step is tried again and what is reported of it. A
/// wait is polled again after its interval; anything else after the retry delay, and the
/// failures are counted.
pub proof fn law_failure_puts_the_step_off(
    state: RuntimeState,
    status: Option<u16>,
    error: Option<String>,
    now: Instant,
    initial: Duration,
    max: Duration,
)
    requires
        state.pending_target_state is Some,
        state.action_step_index < sequence(state.config, state.pending_target_state->0).len(),
        now.current(),
        initial.valid(),
        max.valid(),
        state.config.valid(),
    ensures
        ({
            let after = state.recorded(
                ActionOutcome::Failure { status, error },
                now,
                initial,
                max,
            );
            let step = sequence(
                state.config,
                state.pending_target_state->0,
            )[state.action_step_index as int];
            &&& after.last_http_status == status
            &&& after.last_http_error == error
            &&& after.last_success_at == state.last_success_at
            &&& same_input(after, state)
            &&& same_application(after, state)
            &&& same_timers(after, state)
            &&& after.desired_state == state.desired_state
            &&& after.stale == state.stale
            &&& after.ambiguous == state.ambiguous
            &&& after.pending_target_state == state.pending_target_state
            &&& after.action_step_index == state.action_step_index
            &&& after.step_started_at == state.step_started_at
            &&& after.next_retry_at is Some
            &&& step is WaitForJson ==> after.retry_attempt == state.retry_attempt
                && after.next_retry_at->0.nanos == now.nanos + step->poll_every.nanos
            &&& !(step is WaitForJson) ==> now.nanos <= after.next_retry_at->0.nanos <= now.nanos
                + max.nanos
            &&& !(step is WaitForJson) && state.retry_attempt == 0 ==> after.next_retry_at->0.nanos
                - now.nanos == smaller(initial.nanos as int, max.nanos as int)
            &&& !(step is WaitForJson) && state.retry_attempt < u32::MAX ==> after.retry_attempt
                == state.retry_attempt + 1
            &&& !(step is WaitForJson) && state.retry_attempt == u32::MAX ==> after.retry_attempt
                == u32::MAX
        }),
{
    let target = state.pending_target_state->0;
    lemma_sequence(state, target);
    lemma_valid_step(state, target);
    lemma_backoff_fits(state.retry_attempt as nat, initial.nanos as int, max.nanos as int);
    law_backoff_doubles_up_to_the_maximum(0, initial.nanos as int, max.nanos as int);
}

/// The smaller of two numbers.
pub open spec fn smaller(a: int, b: int) -> int {
    if a <= b {
        a
    } else {
        b
    }
}

proof fn lemma_valid_step(state: RuntimeState, target: BinaryState)
    requires
        state.config.valid(),
        state.action_step_index < sequence(state.config, target).len(),
    ensures
        sequence(state.config, target)[state.action_step_index as int].valid(),
{
    lemma_sequence(state, target);
    assert(state.transition_to(target).valid());
    assert(state.transition_to(target).steps()[state.action_step_index as int].valid());
}

proof fn lemma_backoff_fits(attempt: nat, initial: int, max: int)
    requires
        0 <= initial,
        0 <= max,
    ensures
        0 <= backoff_nanos(attempt, initial, max) <= max,
{
    assert(0 <= initial * pow2(attempt)) by (nonlinear_arith)
        requires
            0 <= initial,
            0 <= pow2(attempt),
    ;
}

/// Of two failures of a request in a row, the second one waits twice as long as the first,
/// up to the maximum.
pub proof fn law_second_failure_waits_twice_as_long(
    state: RuntimeState,
    first: ActionOutcome,
    first_at: Instant,
    second: ActionOutcome,
    second_at: Instant,
    initial: Duration,
    max: Duration,
)
    requires
        state.pending_target_state is Some,
        state.action_step_index < sequence(state.config, state.pending_target_state->0).len(),
        !(sequence(
            state.config,
            state.pending_target_state->0,
        )[state.action_step_index as int] is WaitForJson),
        state.retry_attempt < u32::MAX,
        first is Failure,
        second is Failure,
        first_at.current(),
        second_at.current(),
        initial.valid(),
        max.valid(),
    ensures
        ({
            let once = state.recorded(first, first_at, initial, max);
            let twice = once.recorded(second, second_at, initial, max);
            &&& once.next_retry_at is Some
            &&& twice.next_retry_at is Some
            &&& twice.next_retry_at->0.nanos - second_at.nanos == smaller(
                2 * (once.next_retry_at->0.nanos - first_at.nanos),
                max.nanos as int,
            )
        }),
{
    let target = state.pending_target_state->0;
    lemma_sequence(state, target);
    let attempt = state.retry_attempt as nat;
    lemma_backoff_fits(attempt, initial.nanos as int, max.nanos as int);
    lemma_backoff_fits(attempt + 1, initial.nanos as int, max.nanos as int);
    law_backoff_doubles_up_to_the_maximum(
        attempt,
        initial.nanos as int,
        max.nanos as int,
    );
    let once = state.recorded(first, first_at, initial, max);
    lemma_sequence(once, target);
    assert(once.step() == state.step());
}

/// A poll that does not yet see what it waits for is made again after the interval of the
/// wait. Its deadline stays.
pub proof fn law_pending_poll_is_made_again(
    state: RuntimeState,
    status: u16,
    now: Instant,
    initial: Duration,
    max: Duration,
)
    requires
        state.pending_target_state is Some,
        state.action_step_index < sequence(state.config, state.pending_target_state->0).len(),
        now.current(),
        state.config.valid(),
    ensures
        ({
            let after = state.recorded(ActionOutcome::Pending { status }, now, initial, max);
            let step = sequence(
                state.config,
                state.pending_target_state->0,
            )[state.action_step_index as int];
            &&& after.last_http_status == Some(status)
            &&& after.last_http_error is None
            &&& after.last_success_at == state.last_success_at
            &&& same_input(after, state)
            &&& same_application(after, state)
            &&& same_timers(after, state)
            &&& after.desired_state == state.desired_state
            &&& after.stale == state.stale
            &&& after.ambiguous == state.ambiguous
            &&& after.pending_target_state == state.pending_target_state
            &&& after.action_step_index == state.action_step_index
            &&& after.step_started_at == state.step_started_at
            &&& after.retry_attempt == state.retry_attempt
            &&& after.next_retry_at is Some
            &&& step is WaitForJson ==> after.next_retry_at->0.nanos == now.nanos
                + step->poll_every.nanos
        }),
{
    let target = state.pending_target_state->0;
    lemma_sequence(state, target);
    lemma_valid_step(state, target);
}

/// A wait that timed out goes on with the next step, or applies the target behind the last
/// one, if its policy is to continue. If its policy is to retry, it starts anew after the
/// retry delay and nothing else changes.
pub proof fn law_timed_out_wait_follows_its_policy(
    state: RuntimeState,
    now: Instant,
    initial: Duration,
    max: Duration,
)
    requires
        state.pending_target_state is Some,
        state.action_step_index < sequence(state.config, state.pending_target_state->0).len(),
        now.current(),
        initial.valid(),
        max.valid(),
    ensures
        ({
            let after = state.timed_out(now, initial, max);
            let target = state.pending_target_state->0;
            let steps = sequence(state.config, target);
            let step = steps[state.action_step_index as int];
            let next = state.action_step_index + 1;
            let goes_on = step is WaitForJson && step->on_timeout == WaitTimeoutPolicy::Continue;
            let retries = step is WaitForJson && step->on_timeout == WaitTimeoutPolicy::Retry;
            &&& same_input(after, state)
            &&& same_report(after, state)
            &&& after.stale == state.stale
            &&& after.ambiguous == state.ambiguous
            &&& !(step is WaitForJson) ==> after == state
            &&& goes_on && next == steps.len() ==> just_applied(after, target, now)
            &&& goes_on && next < steps.len() ==> arrived(after, target, next, now)
                && same_application(after, state) && same_timers(after, state)
                && after.desired_state == state.desired_state
            &&& retries ==> {
                &&& same_application(after, state)
                &&& same_timers(after, state)
                &&& after.desired_state == state.desired_state
                &&& after.pending_target_state == state.pending_target_state
                &&& after.action_step_index == state.action_step_index
                &&& after.next_retry_at is Some
                &&& after.step_started_at == after.next_retry_at
                &&& now.nanos <= after.next_retry_at->0.nanos <= now.nanos + max.nanos
                &&& state.retry_attempt == 0 ==> after.next_retry_at->0.nanos - now.nanos
                    == smaller(initial.nanos as int, max.nanos as int)
                &&& state.retry_attempt < u32::MAX ==> after.retry_attempt == state.retry_attempt
                    + 1
            }
        }),
{
    let target = state.pending_target_state->0;
    lemma_sequence(state, target);
    lemma_backoff_fits(state.retry_attempt as nat, initial.nanos as int, max.nanos as int);
    law_backoff_doubles_up_to_the_maximum(0, initial.nanos as int, max.nanos as int);
}

/// Whenever the applied state changes, the next transition is held off from that moment on
/// for the time that the applied one asks for, and no tick before its end decides anything.
pub proof fn law_applied_target_holds_off_the_next(
    state: RuntimeState,
    outcome: ActionOutcome,
    now: Instant,
    initial: Duration,
    max: Duration,
    at: Instant,
)
    requires
        now.nanos + hold_time(state.config, BinaryState::On) <= u128::MAX,
        now.nanos + hold_time(state.config, BinaryState::Off) <= u128::MAX,
    ensures
        holds_off(state, state.recorded(outcome, now, initial, max), now, at),
        holds_off(state, state.timed_out(now, initial, max), now, at),
        holds_off(state, state.ticked(now).0, now, at),
{
    let aged = state.aged(now);
    let qualified = aged.qualified(state.latest_value->0, now);
    if state.pending_target_state is Some {
        lemma_stepped(aged, now);
        lemma_completed_now(aged, now);
    } else {
        if aged.desired_state is Some {
            let started = aged.started(aged.desired_state->0, now);
            lemma_stepped(started, now);
            lemma_completed_now(started, now);
        }
        if qualified.desired_state is Some {
            let started = qualified.started(qualified.desired_state->0, now);
            lemma_stepped(started, now);
            lemma_completed_now(started, now);
        }
    }
    lemma_applied_holds(state, state.recorded(outcome, now, initial, max), now, at);
    lemma_applied_holds(state, state.timed_out(now, initial, max), now, at);
    lemma_applied_holds(state, state.ticked(now).0, now, at);
}

/// Whether a change of the applied state at `now` holds off what follows, seen from a tick
/// at `at`.
pub open spec fn holds_off(
    before: RuntimeState,
    after: RuntimeState,
    now: Instant,
    at: Instant,
) -> bool {
    after.applied_state != before.applied_state ==> {
        &&& after.applied_state is Some
        &&& after.hold_until is Some
        &&& after.hold_until->0.nanos == now.nanos + hold_time(
            before.config,
            after.applied_state->0,
        )
        &&& after.pending_target_state is None
        &&& at.nanos < after.hold_until->0.nanos ==> {
            &&& after.ticked(at).1 is Idle
            &&& after.ticked(at).0.pending_target_state is None
            &&& same_application(after.ticked(at).0, after)
        }
    }
}

proof fn lemma_applied_holds(
    before: RuntimeState,
    after: RuntimeState,
    now: Instant,
    at: Instant,
)
    requires
        after.config == before.config,
        now.nanos + hold_time(before.config, BinaryState::On) <= u128::MAX,
        now.nanos + hold_time(before.config, BinaryState::Off) <= u128::MAX,
        after.applied_state != before.applied_state ==> after.applied_state is Some
            && just_applied(after, after.applied_state->0, now),
    ensures
        holds_off(before, after, now, at),
{
    if after.applied_state != before.applied_state && at.nanos < after.hold_until->0.nanos {
        law_hold_keeps_everything_off(after, at);
    }
}

} // verus!
