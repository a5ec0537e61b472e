//! What the engine hands to its states and gets from them.

use vstd::arithmetic::power2::pow2;
use vstd::prelude::*;

use crate::clock::{Duration, Instant};
use crate::config::{
    ActionStepConfig, BinaryState, HttpConfig, MeasurementField, StateConfig, TransitionConfig,
};
use crate::float::Single;
use crate::metrics::status::of_state;
use crate::metrics::{MetricsView, ReadingValue, Series};
use crate::sample::Sample;
use crate::state::behaviour::{elapsed, sequence};
use crate::state::engine::{
    advanced_state, due_action, due_actions, observed_metrics, observes, outcome_status,
    resolved_state, starts_as, DueAction,
};
use crate::state::machine::{ActionOutcome, RuntimeState, TickDecision};
use crate::text::unsigned_number;

verus! {

/// An action is due exactly when the tick decides to attempt a step, and is that step of the
/// configured sequence. A wait for JSON must be over when its timeout has passed since the
/// step began; nothing else has a deadline.
pub proof fn law_due_action_is_the_step_to_attempt(state: RuntimeState, index: usize, now: Instant)
    ensures
        ({
            let (after, decision) = state.ticked(now);
            let due = due_action(state, index as int, now);
            &&& due is Some <==> decision is Attempt
            &&& due matches Some(action) ==> decision matches TickDecision::Attempt {
                target,
                step_index,
            } && {
                &&& action.state_index == index
                &&& action.state_name@ == state.config.name@
                &&& action.target == target
                &&& action.step_index == step_index
                &&& action.action == sequence(after.config, target)[step_index as int]
                &&& action.action matches ActionStepConfig::WaitForJson { timeout, .. } ==> {
                    &&& action.deadline is Some <==> after.step_started_at is Some
                    &&& after.step_started_at matches Some(started) ==> started.nanos
                        + timeout.nanos <= u128::MAX ==> action.deadline->0.nanos == started.nanos
                        + timeout.nanos
                }
                &&& !(action.action is WaitForJson) ==> action.deadline is None
            }
        }),
{
}

/// The action that is due in the state at an index.
#[verifier::opaque]
spec fn found(states: Seq<RuntimeState>, index: int, now: Instant) -> Option<DueAction> {
    due_action(states[index], index, now)
}

/// The actions that are due in the first states.
spec fn gathered(states: Seq<RuntimeState>, count: int, now: Instant) -> Seq<DueAction>
    decreases count,
{
    if count <= 0 {
        Seq::empty()
    } else if found(states, count - 1, now) is Some {
        gathered(states, count - 1, now).push(found(states, count - 1, now)->0)
    } else {
        gathered(states, count - 1, now)
    }
}

proof fn lemma_found(states: Seq<RuntimeState>, index: int, now: Instant)
    ensures
        found(states, index, now) == due_action(states[index], index, now),
{
    reveal(found);
}

proof fn lemma_gathered(states: Seq<RuntimeState>, count: int, now: Instant)
    requires
        0 <= count <= states.len(),
    ensures
        due_actions(states.take(count), now) == gathered(states, count, now),
    decreases count,
{
    if count > 0 {
        let part = states.take(count);
        lemma_gathered(states, count - 1, now);
        lemma_found(states, count - 1, now);
        assert(part.drop_last() =~= states.take(count - 1));
        assert(part.last() == states[count - 1]);
    }
}

proof fn lemma_own_index(states: Seq<RuntimeState>, index: int, now: Instant)
    requires
        0 <= index < states.len() <= usize::MAX,
    ensures
        found(states, index, now) matches Some(action) ==> action.state_index == index,
{
    lemma_found(states, index, now);
}

proof fn lemma_gathered_in_order(states: Seq<RuntimeState>, count: int, now: Instant)
    requires
        0 <= count <= states.len() <= usize::MAX,
    ensures
        ({
            let due = gathered(states, count, now);
            &&& forall|k: int|
                0 <= k < due.len() ==> (#[trigger] due[k]).state_index < count && found(
                    states,
                    due[k].state_index as int,
                    now,
                ) == Some(due[k])
            &&& forall|k: int, l: int|
                0 <= k < l < due.len() ==> (#[trigger] due[k]).state_index < (
                #[trigger] due[l]).state_index
            &&& forall|i: int|
                0 <= i < count && (#[trigger] found(states, i, now)) is Some ==> due.contains(
                    found(states, i, now)->0,
                )
        }),
    decreases count,
{
    if count > 0 {
        let due = gathered(states, count, now);
        let fewer = gathered(states, count - 1, now);
        lemma_gathered_in_order(states, count - 1, now);
        lemma_own_index(states, count - 1, now);
        assert forall|i: int| 0 <= i < count && (#[trigger] found(
            states,
            i,
            now,
        )) is Some implies due.contains(found(states, i, now)->0) by {
            let wanted = found(states, i, now)->0;
            if i < count - 1 {
                assert(fewer.contains(wanted));
                let k = choose|k: int| 0 <= k < fewer.len() && fewer[k] == wanted;
                assert(due[k] == wanted);
            } else {
                assert(due[due.len() - 1] == wanted);
            }
        }
    }
}

/// Due actions come in the order of the states, one at most for each: every state that has
/// one is there, under its own index, and no other.
pub proof fn law_due_actions_come_in_the_order_of_states(states: Seq<RuntimeState>, now: Instant)
    requires
        states.len() <= usize::MAX,
    ensures
        ({
            let due = due_actions(states, now);
            &&& forall|k: int|
                0 <= k < due.len() ==> (#[trigger] due[k]).state_index < states.len()
                    && due_action(
                    states[due[k].state_index as int],
                    due[k].state_index as int,
                    now,
                ) == Some(due[k])
            &&& forall|k: int, l: int|
                0 <= k < l < due.len() ==> (#[trigger] due[k]).state_index < (
                #[trigger] due[l]).state_index
            &&& forall|i: int|
                0 <= i < states.len() && (#[trigger] due_action(states[i], i, now)) is Some
                    ==> due.contains(due_action(states[i], i, now)->0)
        }),
{
    let count = states.len() as int;
    let due = gathered(states, count, now);
    lemma_gathered(states, count, now);
    assert(states.take(count) =~= states);
    lemma_gathered_in_order(states, count, now);
    assert forall|k: int| 0 <= k < due.len() implies (#[trigger] due[k]).state_index
        < states.len() && due_action(
        states[due[k].state_index as int],
        due[k].state_index as int,
        now,
    ) == Some(due[k]) by {
        lemma_found(states, due[k].state_index as int, now);
    }
    assert forall|i: int|
        0 <= i < states.len() && (#[trigger] due_action(
            states[i],
            i,
            now,
        )) is Some implies due.contains(due_action(states[i], i, now)->0) by {
        lemma_found(states, i, now);
        assert(found(states, i, now) is Some);
    }
}

/// The measurement that a state watches.
pub open spec fn watched(field: MeasurementField, sample: Sample) -> Single {
    if field == MeasurementField::Voltage1Volts {
        sample.voltage1_volts
    } else if field == MeasurementField::Voltage2Volts {
        sample.voltage2_volts
    } else if field == MeasurementField::CurrentAmps {
        sample.current_amps
    } else {
        sample.power_watts
    }
}

/// A sample of another device changes nothing in a state. One of its own device gives it the
/// measurement that it watches, as exactly that number, and the time.
pub proof fn law_state_takes_in_its_own_measurement(
    before: RuntimeState,
    after: RuntimeState,
    sample: Sample,
    now: Instant,
)
    requires
        observes(before, after, sample, now),
    ensures
        sample.serial != before.serial ==> after == before,
        sample.serial == before.serial ==> {
            let measured = watched(before.config.field, sample);
            &&& after.latest_sample_at == Some(now)
            &&& after.latest_value is Some
            &&& after.latest_value->0.nan() == measured.nan()
            &&& after.latest_value->0.infinite() == measured.infinite()
            &&& after.latest_value->0.negative() == measured.negative()
            &&& !measured.nan() && !measured.infinite() ==> after.latest_value->0.value()
                == measured.value() * pow2(925)
            &&& after.config == before.config
        },
{
}

/// The name of a measurement.
pub open spec fn called(field: MeasurementField) -> Seq<char> {
    if field == MeasurementField::Voltage1Volts {
        "voltage1_volts"@
    } else if field == MeasurementField::Voltage2Volts {
        "voltage2_volts"@
    } else if field == MeasurementField::CurrentAmps {
        "current_amps"@
    } else {
        "power_watts"@
    }
}

/// Whether the value of a state stands among the readings from place `at` on, followed by an
/// age of zero.
pub open spec fn input_read_at(metrics: MetricsView, at: int, state: RuntimeState) -> bool {
    let readings = metrics.readings;
    &&& 0 <= at < readings.len() - 1
    &&& readings[at].series == Series::StateInputValue
    &&& readings[at].labels == of_state(state.config.name@).push(
        ("field"@, called(state.config.field)),
    )
    &&& readings[at].value == ReadingValue::Double(state.latest_value->0)
    &&& readings[at + 1].series == Series::StateInputAge
    &&& readings[at + 1].labels == of_state(state.config.name@)
    &&& readings[at + 1].value == ReadingValue::Seconds(Duration { nanos: 0 })
}

/// The input of every state of the device is read, with an age of zero. Nothing but readings
/// is added, and nothing at all if no state watches the device.
pub proof fn law_inputs_of_a_sample_are_read(
    metrics: MetricsView,
    states: Seq<RuntimeState>,
    sample: Sample,
)
    ensures
        ({
            let after = observed_metrics(metrics, states, sample);
            let count = metrics.readings.len() as int;
            &&& after == (MetricsView { readings: after.readings, ..metrics })
            &&& count <= after.readings.len() <= count + 2 * states.len()
            &&& after.readings.take(count) == metrics.readings
            &&& (forall|i: int| 0 <= i < states.len() ==> #[trigger] states[i].serial
                != sample.serial) ==> after == metrics
            &&& forall|i: int|
                0 <= i < states.len() && (#[trigger] states[i]).serial == sample.serial
                    ==> exists|at: int| count <= at && #[trigger] input_read_at(
                    after,
                    at,
                    states[i],
                )
        }),
    decreases states.len(),
{
    let after = observed_metrics(metrics, states, sample);
    let count = metrics.readings.len() as int;
    if states.len() == 0 {
        assert(after.readings.take(count) =~= metrics.readings);
    } else {
        let fewer = states.drop_last();
        let before = observed_metrics(metrics, fewer, sample);
        let state = states.last();
        law_inputs_of_a_sample_are_read(metrics, fewer, sample);
        assert(after.readings.take(before.readings.len() as int) =~= before.readings);
        assert(after.readings.take(count) =~= before.readings.take(count));
        if forall|i: int| 0 <= i < states.len() ==> #[trigger] states[i].serial != sample.serial {
            assert(states[states.len() - 1].serial != sample.serial);
            assert forall|i: int| 0 <= i < fewer.len() implies #[trigger] fewer[i].serial
                != sample.serial by {
                assert(states[i].serial != sample.serial);
            }
        }
        assert forall|i: int|
            0 <= i < states.len() && (#[trigger] states[i]).serial
                == sample.serial implies exists|at: int|
            count <= at && #[trigger] input_read_at(after, at, states[i]) by {
            if i < fewer.len() {
                assert(fewer[i] == states[i]);
                let at = choose|at: int| count <= at && #[trigger] input_read_at(
                    before,
                    at,
                    fewer[i],
                );
                assert(after.readings[at] == before.readings[at]);
                assert(after.readings[at + 1] == before.readings[at + 1]);
                assert(input_read_at(after, at, states[i]));
            } else {
                let at = before.readings.len() as int;
                assert(of_state(state.config.name@).push(("field"@, called(state.config.field)))
                    =~= seq![
                    ("name"@, state.config.name@),
                    ("field"@, state.config.field.label()),
                ]);
                assert(input_read_at(after, at, states[i]));
            }
        }
    }
}

/// The result of an attempt counts only for the step that the state is still at. For a wait
/// whose timeout has passed since the step began it comes too late, and the timeout counts.
pub proof fn law_result_counts_for_the_step_it_is_of(
    state: RuntimeState,
    action: DueAction,
    outcome: ActionOutcome,
    http: HttpConfig,
    now: Instant,
)
    requires
        state.valid(),
    ensures
        ({
            let after = resolved_state(state, action, outcome, http, now);
            let current = state.pending_target_state == Some(action.target)
                && state.action_step_index == action.step_index;
            let steps = sequence(state.config, action.target);
            let at = state.action_step_index as int;
            let late = current && at < steps.len() && steps[at] is WaitForJson
                && state.step_started_at is Some && elapsed(state.step_started_at->0, now)
                >= steps[at]->WaitForJson_timeout.nanos;
            &&& !current ==> after == state
            &&& late ==> after == state.timed_out(now, http.retry_initial, http.retry_max)
            &&& current && !late && state.step_started_at is Some ==> after == state.recorded(
                outcome,
                now,
                http.retry_initial,
                http.retry_max,
            )
        }),
{
    assert(sequence(state.config, action.target) =~= state.steps(action.target));
}

/// A tick of the engine deals with a wait that timed out at once, and leaves every other
/// decision to be carried out.
pub proof fn law_engine_tick_deals_with_timeouts(
    state: RuntimeState,
    http: HttpConfig,
    now: Instant,
)
    ensures
        ({
            let (ticked, decision) = state.ticked(now);
            let after = advanced_state(state, http, now);
            &&& decision is WaitTimedOut ==> after == ticked.timed_out(
                now,
                http.retry_initial,
                http.retry_max,
            )
            &&& !(decision is WaitTimedOut) ==> after == ticked
        }),
{
}

/// The status of a response is that of its outcome, whichever it is.
pub proof fn law_status_of_an_outcome(outcome: ActionOutcome)
    ensures
        outcome matches ActionOutcome::Success { status } ==> outcome_status(outcome) == Some(
            status,
        ),
        outcome matches ActionOutcome::Pending { status } ==> outcome_status(outcome) == Some(
            status,
        ),
        outcome matches ActionOutcome::Failure { status, .. } ==> outcome_status(outcome)
            == status,
{
}

/// Whether two transitions have the same condition, hold and actions.
pub open spec fn alike(a: TransitionConfig, b: TransitionConfig) -> bool {
    &&& a.op == b.op
    &&& a.value == b.value
    &&& a.duration == b.duration
    &&& a.hold_for == b.hold_for
    &&& a.url == b.url
    &&& a.actions@ == b.actions@
}

/// The engine starts each state as it is configured, under the number that its serial
/// spells, and knows nothing of it.
pub proof fn law_engine_starts_states_as_configured(state: RuntimeState, config: StateConfig)
    requires
        starts_as(state, config),
    ensures
        unsigned_number(config.serial@) == Some(state.serial),
        state.config.name@ == config.name@,
        state.config.field == config.field,
        state.config.default_state == config.default_state,
        state.config.stale_after == config.stale_after,
        alike(state.config.on, config.on),
        alike(state.config.off, config.off),
        sequence(state.config, BinaryState::On) == sequence(config, BinaryState::On),
        sequence(state.config, BinaryState::Off) == sequence(config, BinaryState::Off),
        state.latest_value is None,
        state.latest_sample_at is None,
        state.desired_state is None,
        state.applied_state is None,
        state.pending_target_state is None,
        state.hold_until is None,
        state.on_condition_started_at is None,
        state.off_condition_started_at is None,
{
}

} // verus!
