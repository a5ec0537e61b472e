//! Laws of the runtime state machine.

use vstd::arithmetic::power2::{lemma2_to64, lemma_pow2_unfold, pow2};
use vstd::prelude::*;

use crate::clock::{later, nanos_since, Duration, Instant};
use crate::config::{
    threshold_problem, ActionStepConfig, BinaryState, StateConfig, TransitionConfig,
};
use crate::float::Double;
use crate::state::condition::{law_valid_thresholds_exclude_each_other, satisfies};
use crate::state::machine::{
    backoff_nanos, fresh, timer_after, timer_ripe, ActionOutcome, RuntimeState, TickDecision,
};

verus! {

/// One measurement and the time when it was observed.
pub struct Observation {
    /// Measured value.
    pub value: Double,
    /// Time of the observation.
    pub at: Instant,
}

/// Whether the value in force at `start`, and each one observed since, satisfies the
/// threshold of a transition.
pub open spec fn held_since(
    history: Seq<Observation>,
    transition: TransitionConfig,
    start: Instant,
) -> bool {
    exists|first: int|
        0 <= first < history.len() && history[first].at.nanos <= start.nanos
            && #[trigger] satisfied_from(history, transition, first)
}

/// Whether every observation from number `first` on satisfies the threshold.
pub open spec fn satisfied_from(
    history: Seq<Observation>,
    transition: TransitionConfig,
    first: int,
) -> bool {
    forall|i: int| first <= i < history.len() ==> satisfies(transition, #[trigger] history[i].value)
}

/// Whether a state reflects the observations made so far: it holds the latest one, and
/// each running timer started no earlier than its condition came to hold for good.
pub open spec fn reflects(state: RuntimeState, history: Seq<Observation>) -> bool {
    &&& history.len() == 0 ==> state.latest_value is None && state.latest_sample_at is None
    &&& history.len() > 0 ==> state.latest_value == Some(history.last().value)
        && state.latest_sample_at == Some(history.last().at)
    &&& state.on_condition_started_at is Some ==> held_since(
        history,
        state.config.on,
        state.on_condition_started_at->0,
    )
    &&& state.off_condition_started_at is Some ==> held_since(
        history,
        state.config.off,
        state.off_condition_started_at->0,
    )
}

/// The timer of the transition that leads to `target`.
pub open spec fn timer_of(state: RuntimeState, target: BinaryState) -> Option<Instant> {
    match target {
        BinaryState::On => state.on_condition_started_at,
        BinaryState::Off => state.off_condition_started_at,
    }
}

/// Whether a tick at `now` finds the condition of `target` met for its full duration.
pub open spec fn ripe_at(state: RuntimeState, target: BinaryState, now: Instant) -> bool {
    let transition = state.transition_to(target);
    let matched = satisfies(transition, state.latest_value->0);
    timer_ripe(
        timer_after(timer_of(state, target), matched, now),
        matched,
        now,
        transition.duration,
    )
}

/// Whether a tick at `now` looks at the thresholds: nothing is pending, the latest
/// value is fresh and no transition is held off.
pub open spec fn evaluates_at(state: RuntimeState, now: Instant) -> bool {
    &&& state.pending_target_state is None
    &&& state.latest_value is Some
    &&& state.latest_sample_at is Some
    &&& !state.stale_at(now)
    &&& !state.held_at(now)
}

/// Following a sequence touches neither the configuration nor what was observed. The
/// sequence is still pending, further on by delays alone, or its target is applied.
pub proof fn lemma_stepped(state: RuntimeState, now: Instant)
    requires
        state.pending_target_state is Some,
    ensures
        ({
            let target = state.pending_target_state->0;
            let after = state.stepped(now).0;
            &&& after.config == state.config
            &&& after.serial == state.serial
            &&& after.latest_value == state.latest_value
            &&& after.latest_sample_at == state.latest_sample_at
            &&& after.stale == state.stale
            &&& after.ambiguous == state.ambiguous
            &&& after.pending_target_state == Some(target) ==> {
                &&& after.desired_state == state.desired_state
                &&& after.applied_state == state.applied_state
                &&& after.hold_until == state.hold_until
                &&& after.on_condition_started_at == state.on_condition_started_at
                &&& after.off_condition_started_at == state.off_condition_started_at
                &&& after.action_step_index >= state.action_step_index
                &&& forall|i: int|
                    state.action_step_index <= i < after.action_step_index
                        ==> #[trigger] state.steps(target)[i] is Delay
            }
            &&& after.pending_target_state != Some(target) ==> {
                &&& after.pending_target_state is None
                &&& after.desired_state == Some(target)
                &&& after.applied_state == Some(target)
                &&& after.hold_until == Some(
                    later(now, state.transition_to(target).hold_for),
                )
                &&& after.on_condition_started_at is None
                &&& after.off_condition_started_at is None
                &&& state.stepped(now).1 is Idle
                &&& state.action_step_index < state.steps(target).len()
                &&& forall|i: int|
                    state.action_step_index <= i < state.steps(target).len()
                        ==> #[trigger] state.steps(target)[i] is Delay
            }
        }),
    decreases state.steps_left(),
{
    let target = state.pending_target_state->0;
    match state.step() {
        Some(ActionStepConfig::Delay { duration }) => {
            let begun = RuntimeState {
                step_started_at: Some(state.step_start(now)),
                ..state
            };
            if nanos_since(now, state.step_start(now)) >= duration.nanos {
                state.lemma_step_count_fits(target);
                let next = begun.advanced(target, now);
                assert(state.stepped(now) == next.stepped(now));
                if next.pending_target_state is Some {
                    lemma_stepped(next, now);
                    assert(next.steps(target) == state.steps(target));
                } else {
                    assert(next.stepped(now) == (next, TickDecision::Idle));
                }
            }
        },
        _ => {},
    }
}

/// What a tick does to the parts of a state that its laws speak of.
pub proof fn lemma_ticked(state: RuntimeState, now: Instant)
    ensures
        ({
            let after = state.ticked(now).0;
            let timers_kept = after.on_condition_started_at == state.on_condition_started_at
                && after.off_condition_started_at == state.off_condition_started_at;
            let timers_clear = after.on_condition_started_at is None
                && after.off_condition_started_at is None;
            &&& after.config == state.config
            &&& after.latest_value == state.latest_value
            &&& after.latest_sample_at == state.latest_sample_at
            &&& !evaluates_at(state, now) ==> timers_kept || timers_clear
            &&& evaluates_at(state, now) ==> timers_clear || (after.on_condition_started_at
                == timer_after(
                state.on_condition_started_at,
                satisfies(state.config.on, state.latest_value->0),
                now,
            ) && after.off_condition_started_at == timer_after(
                state.off_condition_started_at,
                satisfies(state.config.off, state.latest_value->0),
                now,
            ))
        }),
{
    let aged = state.aged(now);
    if state.pending_target_state is Some {
        lemma_stepped(aged, now);
    } else if state.latest_value is None || state.latest_sample_at is None {
        if aged.desired_state is Some {
            lemma_stepped(aged.started(aged.desired_state->0, now), now);
        }
    } else if evaluates_at(state, now) {
        let qualified = aged.qualified(state.latest_value->0, now);
        if qualified.desired_state is Some {
            lemma_stepped(qualified.started(qualified.desired_state->0, now), now);
        }
    }
}

/// A new state reflects that nothing was observed.
pub proof fn law_new_state_reflects_nothing(config: StateConfig, serial: u64)
    ensures
        reflects(fresh(config, serial), Seq::empty()),
{
}

/// A state that takes in a measurement reflects it together with all earlier ones: one
/// measurement that breaks a condition resets its timer.
pub proof fn law_observing_extends_the_history(
    state: RuntimeState,
    history: Seq<Observation>,
    value: Double,
    now: Instant,
)
    requires
        reflects(state, history),
    ensures
        reflects(state.observed(value, now), history.push(Observation { value, at: now })),
        !satisfies(state.config.on, value) ==> state.observed(
            value,
            now,
        ).on_condition_started_at is None,
        !satisfies(state.config.off, value) ==> state.observed(
            value,
            now,
        ).off_condition_started_at is None,
{
    let longer = history.push(Observation { value, at: now });
    let after = state.observed(value, now);
    if after.on_condition_started_at is Some {
        lemma_held_longer(
            history,
            state.config.on,
            state.on_condition_started_at->0,
            Observation { value, at: now },
        );
    }
    if after.off_condition_started_at is Some {
        lemma_held_longer(
            history,
            state.config.off,
            state.off_condition_started_at->0,
            Observation { value, at: now },
        );
    }
    assert(longer.last().value == value);
}

proof fn lemma_held_longer(
    history: Seq<Observation>,
    transition: TransitionConfig,
    start: Instant,
    next: Observation,
)
    requires
        held_since(history, transition, start),
        satisfies(transition, next.value),
    ensures
        held_since(history.push(next), transition, start),
{
    let first = choose|first: int|
        0 <= first < history.len() && history[first].at.nanos <= start.nanos
            && #[trigger] satisfied_from(history, transition, first);
    let longer = history.push(next);
    assert forall|i: int| first <= i < longer.len() implies satisfies(
        transition,
        #[trigger] longer[i].value,
    ) by {
        if i < history.len() {
            assert(longer[i] == history[i]);
        }
    }
    assert(longer[first] == history[first]);
    assert(satisfied_from(longer, transition, first));
}

proof fn lemma_held_from_now(history: Seq<Observation>, transition: TransitionConfig, now: Instant)
    requires
        history.len() > 0,
        history.last().at.nanos <= now.nanos,
        satisfies(transition, history.last().value),
    ensures
        held_since(history, transition, now),
{
    assert(satisfied_from(history, transition, history.len() - 1));
}

/// A tick keeps a state true to the observations made so far.
pub proof fn law_ticking_reflects_the_same_history(
    state: RuntimeState,
    history: Seq<Observation>,
    now: Instant,
)
    requires
        reflects(state, history),
        history.len() > 0 ==> history.last().at.nanos <= now.nanos,
    ensures
        reflects(state.ticked(now).0, history),
{
    lemma_ticked(state, now);
    if evaluates_at(state, now) {
        if satisfies(state.config.on, state.latest_value->0) {
            lemma_held_from_now(history, state.config.on, now);
        }
        if satisfies(state.config.off, state.latest_value->0) {
            lemma_held_from_now(history, state.config.off, now);
        }
    }
}

/// Recording the outcome of an attempt, or a wait that timed out, keeps a state true to
/// the observations made so far.
pub proof fn law_recording_reflects_the_same_history(
    state: RuntimeState,
    history: Seq<Observation>,
    outcome: ActionOutcome,
    now: Instant,
    initial: Duration,
    max: Duration,
)
    requires
        reflects(state, history),
    ensures
        reflects(state.recorded(outcome, now, initial, max), history),
        reflects(state.timed_out(now, initial, max), history),
{
}

/// A transition fires only when its condition has held without interruption for the
/// full duration: whenever a tick turns the desired state to `target`, either the
/// default state is assumed, or every measurement for at least that long satisfied the
/// threshold.
pub proof fn law_transition_needs_continuous_duration(
    state: RuntimeState,
    history: Seq<Observation>,
    target: BinaryState,
    now: Instant,
)
    requires
        reflects(state, history),
        history.len() > 0 ==> history.last().at.nanos <= now.nanos,
        state.pending_target_state is None,
        state.desired_state != Some(target),
        state.ticked(now).0.desired_state == Some(target),
    ensures
        (target == state.config.default_state && state.applied_state is None && !satisfies(
            state.config.on,
            state.latest_value->0,
        ) && !satisfies(state.config.off, state.latest_value->0)) || exists|start: Instant|
            nanos_since(now, start) >= state.transition_to(target).duration.nanos && #[trigger]
                held_since(history, state.transition_to(target), start),
{
    let aged = state.aged(now);
    if state.latest_value is None || state.latest_sample_at is None {
        if aged.desired_state is Some {
            lemma_stepped(aged.started(aged.desired_state->0, now), now);
        }
    } else {
        assert(evaluates_at(state, now));
        let qualified = aged.qualified(state.latest_value->0, now);
        if qualified.desired_state is Some {
            lemma_stepped(qualified.started(qualified.desired_state->0, now), now);
        }
        assert(qualified.desired_state == Some(target));
        let transition = state.transition_to(target);
        if ripe_at(state, target, now) {
            let start = timer_after(
                timer_of(state, target),
                satisfies(transition, state.latest_value->0),
                now,
            )->0;
            if timer_of(state, target) is None {
                lemma_held_from_now(history, transition, now);
            }
            assert(held_since(history, transition, start));
        }
    }
}

/// A stale input pauses decisions: nothing is desired, nothing is attempted and what
/// was applied stays.
pub proof fn law_stale_input_pauses_decisions(state: RuntimeState, now: Instant)
    requires
        state.pending_target_state is None,
        state.latest_sample_at is Some,
        state.stale_at(now),
    ensures
        ({
            let (after, decision) = state.ticked(now);
            &&& decision is Idle
            &&& after.desired_state is None
            &&& after.applied_state == state.applied_state
            &&& after.pending_target_state is None
            &&& after.stale
        }),
{
}

/// A sequence that is under way goes on whatever the age and the value of the input:
/// an attempt that is due is made even while the input is stale.
pub proof fn law_pending_retries_survive_staleness(state: RuntimeState, now: Instant)
    requires
        state.pending_target_state is Some,
    ensures
        state.ticked(now).1 == state.stepped(now).1,
{
    lemma_step_decision(state, state.aged(now), now);
}

proof fn lemma_step_decision(state: RuntimeState, other: RuntimeState, now: Instant)
    requires
        state.config == other.config,
        state.pending_target_state == other.pending_target_state,
        state.action_step_index == other.action_step_index,
        state.step_started_at == other.step_started_at,
        state.next_retry_at == other.next_retry_at,
    ensures
        state.stepped(now).1 == other.stepped(now).1,
    decreases state.steps_left(),
{
    let target = state.pending_target_state->0;
    match state.step() {
        Some(ActionStepConfig::Delay { duration }) => {
            if nanos_since(now, state.step_start(now)) >= duration.nanos {
                state.lemma_step_count_fits(target);
                let begun = RuntimeState {
                    step_started_at: Some(state.step_start(now)),
                    ..state
                };
                let other_begun = RuntimeState {
                    step_started_at: Some(other.step_start(now)),
                    ..other
                };
                lemma_step_decision(
                    begun.advanced(target, now),
                    other_begun.advanced(target, now),
                    now,
                );
            }
        },
        _ => {},
    }
}

/// A decision is about the step that the pending sequence is at: a request or a wait
/// that may be tried, or a wait that has reached its deadline.
pub proof fn law_decision_is_about_the_current_step(state: RuntimeState, now: Instant)
    ensures
        ({
            let (after, decision) = state.ticked(now);
            &&& decision matches TickDecision::Attempt { target, step_index } ==> after.awaits(
                target,
                step_index,
            ) && after.step() is Some && !(after.step()->0 is Delay) && !after.deadline_passed(now)
            &&& decision matches TickDecision::WaitTimedOut { target, step_index } ==> after.awaits(
                target,
                step_index,
            ) && after.deadline_passed(now)
        }),
{
    let aged = state.aged(now);
    if state.pending_target_state is Some {
        lemma_step_decided(aged, now);
    } else if state.latest_value is None || state.latest_sample_at is None {
        if aged.desired_state is Some {
            lemma_step_decided(aged.started(aged.desired_state->0, now), now);
        }
    } else if evaluates_at(state, now) {
        let qualified = aged.qualified(state.latest_value->0, now);
        if qualified.desired_state is Some {
            lemma_step_decided(qualified.started(qualified.desired_state->0, now), now);
        }
    }
}

proof fn lemma_step_decided(state: RuntimeState, now: Instant)
    ensures
        ({
            let (after, decision) = state.stepped(now);
            &&& decision matches TickDecision::Attempt { target, step_index } ==> after.awaits(
                target,
                step_index,
            ) && after.step() is Some && !(after.step()->0 is Delay) && !after.deadline_passed(now)
            &&& decision matches TickDecision::WaitTimedOut { target, step_index } ==> after.awaits(
                target,
                step_index,
            ) && after.deadline_passed(now)
        }),
    decreases state.steps_left(),
{
    match state.step() {
        Some(ActionStepConfig::Delay { duration }) => {
            if nanos_since(now, state.step_start(now)) >= duration.nanos {
                let target = state.pending_target_state->0;
                state.lemma_step_count_fits(target);
                let begun = RuntimeState {
                    step_started_at: Some(state.step_start(now)),
                    ..state
                };
                lemma_step_decided(begun.advanced(target, now), now);
            }
        },
        _ => {},
    }
}

/// When both conditions have been met for their full durations, nothing happens.
pub proof fn law_ambiguous_conditions_change_nothing(state: RuntimeState, now: Instant)
    requires
        evaluates_at(state, now),
        ripe_at(state, BinaryState::On, now),
        ripe_at(state, BinaryState::Off, now),
    ensures
        ({
            let (after, decision) = state.ticked(now);
            &&& decision is Idle
            &&& after.ambiguous
            &&& after.desired_state == state.desired_state
            &&& after.applied_state == state.applied_state
            &&& after.pending_target_state is None
        }),
{
}

/// A state whose thresholds pass validation is never ambiguous after it looked at them.
pub proof fn law_validated_state_is_never_ambiguous(state: RuntimeState, now: Instant)
    requires
        threshold_problem(state.config.on, state.config.off) is None,
        evaluates_at(state, now),
    ensures
        !state.ticked(now).0.ambiguous,
{
    law_valid_thresholds_exclude_each_other(
        state.config.on,
        state.config.off,
        state.latest_value->0,
    );
    let qualified = state.aged(now).qualified(state.latest_value->0, now);
    if qualified.desired_state is Some {
        lemma_stepped(qualified.started(qualified.desired_state->0, now), now);
    }
}

/// Whatever happens while a target is pending, that target stays pending until it is
/// applied: no other one takes its place.
pub proof fn law_pending_target_is_not_replaced(
    state: RuntimeState,
    value: Double,
    outcome: ActionOutcome,
    now: Instant,
    initial: Duration,
    max: Duration,
)
    requires
        state.pending_target_state is Some,
    ensures
        ({
            let target = state.pending_target_state;
            &&& state.observed(value, now).pending_target_state == target
            &&& goes_on_or_applies(state.ticked(now).0, target)
            &&& goes_on_or_applies(state.recorded(outcome, now, initial, max), target)
            &&& goes_on_or_applies(state.timed_out(now, initial, max), target)
        }),
{
    lemma_stepped(state.aged(now), now);
}

/// Whether a target is still pending, or has been applied and nothing else is pending.
pub open spec fn goes_on_or_applies(state: RuntimeState, target: Option<BinaryState>) -> bool {
    ||| state.pending_target_state == target
    ||| state.pending_target_state is None && state.applied_state == target
}

/// The applied state changes only when the last step of a sequence is done: that step
/// was acknowledged, its wait was given up by policy, or only elapsed delays were left.
pub proof fn law_applied_state_changes_only_at_the_last_step(
    state: RuntimeState,
    value: Double,
    outcome: ActionOutcome,
    now: Instant,
    initial: Duration,
    max: Duration,
)
    requires
        state.pending_target_state is Some,
        state.action_step_index < state.steps(state.pending_target_state->0).len(),
    ensures
        ({
            let steps = state.steps(state.pending_target_state->0);
            let last = state.action_step_index + 1 == steps.len();
            &&& state.observed(value, now).applied_state == state.applied_state
            &&& state.recorded(outcome, now, initial, max).applied_state != state.applied_state
                ==> outcome is Success && last
            &&& outcome is Success && last ==> state.recorded(
                outcome,
                now,
                initial,
                max,
            ).applied_state == state.pending_target_state
            &&& state.timed_out(now, initial, max).applied_state != state.applied_state ==> last
                && steps[state.action_step_index as int] is WaitForJson
            &&& state.ticked(now).0.applied_state != state.applied_state ==> forall|i: int|
                state.action_step_index <= i < steps.len() ==> #[trigger] steps[i] is Delay
        }),
{
    lemma_stepped(state.aged(now), now);
    assert(state.aged(now).steps(state.pending_target_state->0) == state.steps(
        state.pending_target_state->0,
    ));
}

/// The steps of a sequence are taken in order: a success leads to the very next step, a
/// tick passes delays alone, and nothing else moves on.
pub proof fn law_steps_are_taken_in_order(
    state: RuntimeState,
    outcome: ActionOutcome,
    now: Instant,
    initial: Duration,
    max: Duration,
)
    requires
        state.pending_target_state is Some,
        state.action_step_index + 1 < state.steps(state.pending_target_state->0).len(),
    ensures
        ({
            let target = state.pending_target_state->0;
            let recorded = state.recorded(outcome, now, initial, max);
            let ticked = state.ticked(now).0;
            &&& recorded.pending_target_state == Some(target)
            &&& outcome is Success ==> recorded.action_step_index == state.action_step_index + 1
            &&& !(outcome is Success) ==> recorded.action_step_index == state.action_step_index
            &&& ticked.pending_target_state == Some(target) ==> ticked.action_step_index
                >= state.action_step_index && forall|i: int|
                state.action_step_index <= i < ticked.action_step_index ==> #[trigger] state.steps(
                    target,
                )[i] is Delay
        }),
{
    let target = state.pending_target_state->0;
    state.lemma_step_count_fits(target);
    lemma_stepped(state.aged(now), now);
    assert(state.aged(now).steps(target) == state.steps(target));
}

/// A failed attempt keeps the applied, the desired and the pending state. The next one
/// waits for the backoff of the attempts made so far.
pub proof fn law_failure_keeps_the_applied_state(
    state: RuntimeState,
    outcome: ActionOutcome,
    now: Instant,
    initial: Duration,
    max: Duration,
)
    requires
        outcome is Failure,
    ensures
        ({
            let after = state.recorded(outcome, now, initial, max);
            let polling = state.step() is Some && state.step()->0 is WaitForJson;
            &&& after.applied_state == state.applied_state
            &&& after.desired_state == state.desired_state
            &&& after.pending_target_state == state.pending_target_state
            &&& after.action_step_index == state.action_step_index
            &&& !polling ==> after.next_retry_at == Some(state.backed_off(now, initial, max))
            &&& !polling && state.retry_attempt < u32::MAX ==> after.retry_attempt
                == state.retry_attempt + 1
        }),
{
}

/// A success clears the backoff and resets the retry counter.
pub proof fn law_success_resets_the_backoff(
    state: RuntimeState,
    outcome: ActionOutcome,
    now: Instant,
    initial: Duration,
    max: Duration,
)
    requires
        outcome is Success,
    ensures
        state.recorded(outcome, now, initial, max).retry_attempt == 0,
        state.recorded(outcome, now, initial, max).next_retry_at is None,
{
}

/// Retry delays start at the initial delay, double each time and stop at the maximum.
pub proof fn law_backoff_doubles_up_to_the_maximum(attempt: nat, initial: int, max: int)
    requires
        0 <= initial,
        0 <= max,
    ensures
        backoff_nanos(0, initial, max) == if initial <= max {
            initial
        } else {
            max
        },
        backoff_nanos(attempt + 1, initial, max) == if 2 * backoff_nanos(attempt, initial, max)
            <= max {
            2 * backoff_nanos(attempt, initial, max)
        } else {
            max
        },
        backoff_nanos(attempt, initial, max) <= backoff_nanos(attempt + 1, initial, max) <= max,
{
    lemma2_to64();
    lemma_pow2_unfold(attempt + 1);
    assert(initial * pow2(attempt + 1) == 2 * (initial * pow2(attempt))) by (nonlinear_arith)
        requires
            pow2(attempt + 1) == 2 * pow2(attempt),
    ;
    assert(0 <= initial * pow2(attempt)) by (nonlinear_arith)
        requires
            0 <= initial,
            0 <= pow2(attempt),
    ;
}

/// Once a state has been applied the default state is no longer used: a tick turns the
/// desired state only to a target whose condition was met for its full duration.
pub proof fn law_default_state_is_not_used_once_applied(
    state: RuntimeState,
    target: BinaryState,
    now: Instant,
)
    requires
        state.applied_state is Some,
        state.pending_target_state is None,
        state.desired_state != Some(target),
        state.ticked(now).0.desired_state == Some(target),
    ensures
        evaluates_at(state, now),
        ripe_at(state, target, now),
{
    let aged = state.aged(now);
    if state.latest_value is None || state.latest_sample_at is None {
        if aged.desired_state is Some {
            lemma_stepped(aged.started(aged.desired_state->0, now), now);
        }
    } else if evaluates_at(state, now) {
        let qualified = aged.qualified(state.latest_value->0, now);
        if qualified.desired_state is Some {
            lemma_stepped(qualified.started(qualified.desired_state->0, now), now);
        }
    }
}

/// What has been applied is never forgotten.
pub proof fn law_applied_state_stays_known(
    state: RuntimeState,
    value: Double,
    outcome: ActionOutcome,
    now: Instant,
    initial: Duration,
    max: Duration,
)
    requires
        state.applied_state is Some,
    ensures
        state.observed(value, now).applied_state is Some,
        state.ticked(now).0.applied_state is Some,
        state.recorded(outcome, now, initial, max).applied_state is Some,
        state.timed_out(now, initial, max).applied_state is Some,
{
    let aged = state.aged(now);
    if state.pending_target_state is Some {
        lemma_stepped(aged, now);
    } else if state.latest_value is None || state.latest_sample_at is None {
        if aged.desired_state is Some {
            lemma_stepped(aged.started(aged.desired_state->0, now), now);
        }
    } else if evaluates_at(state, now) {
        let qualified = aged.qualified(state.latest_value->0, now);
        if qualified.desired_state is Some {
            lemma_stepped(qualified.started(qualified.desired_state->0, now), now);
        }
    }
}

/// A sequence that was applied holds off the next transition: until the hold is over no
/// timer runs and a tick decides nothing, so the next duration is counted from there.
pub proof fn law_hold_precedes_the_next_duration(
    state: RuntimeState,
    value: Double,
    outcome: ActionOutcome,
    now: Instant,
    initial: Duration,
    max: Duration,
)
    requires
        no_timer_under_hold(state),
    ensures
        no_timer_under_hold(state.observed(value, now)),
        no_timer_under_hold(state.ticked(now).0),
        no_timer_under_hold(state.recorded(outcome, now, initial, max)),
        no_timer_under_hold(state.timed_out(now, initial, max)),
        state.pending_target_state is None && state.latest_value is Some
            && state.latest_sample_at is Some && state.held_at(now) ==> state.ticked(now).1 is Idle
            && (state.ticked(now).0.desired_state is None || state.ticked(now).0.desired_state
            == state.desired_state),
{
    let aged = state.aged(now);
    if state.pending_target_state is Some {
        lemma_stepped(aged, now);
    } else if state.latest_value is None || state.latest_sample_at is None {
        if aged.desired_state is Some {
            lemma_stepped(aged.started(aged.desired_state->0, now), now);
        }
    } else if evaluates_at(state, now) {
        let qualified = aged.qualified(state.latest_value->0, now);
        if qualified.desired_state is Some {
            lemma_stepped(qualified.started(qualified.desired_state->0, now), now);
        }
    }
}

/// Whether no timer runs while a hold is in force.
pub open spec fn no_timer_under_hold(state: RuntimeState) -> bool {
    state.hold_until is Some ==> state.on_condition_started_at is None
        && state.off_condition_started_at is None
}

/// In every state that is reached from a new one, a pending target is not the applied state
/// and the start of the current step is known: new states are so, and observing, ticking,
/// recording an outcome and recording a wait that timed out keep it.
pub proof fn law_states_are_coherent(
    config: StateConfig,
    serial: u64,
    state: RuntimeState,
    value: Double,
    outcome: ActionOutcome,
    now: Instant,
    initial: Duration,
    max: Duration,
)
    ensures
        fresh(config, serial).coherent(),
        state.coherent() ==> state.observed(value, now).coherent(),
        state.coherent() ==> state.ticked(now).0.coherent(),
        state.coherent() ==> state.recorded(outcome, now, initial, max).coherent(),
        state.coherent() ==> state.timed_out(now, initial, max).coherent(),
{
    if state.coherent() {
        state.lemma_ticked_is_coherent(now);
    }
}

} // verus!
