//! What each metric shows after something happened.

use vstd::prelude::*;

use crate::calendar::UtcTime;
use crate::clock::{nanos_since, Duration, Instant};
use crate::config::{BinaryState, HttpConfig};
use crate::exposition::{
    gauge_line, label_sets, label_text, labels_text, value_line, Labels, MetricValue,
};
use crate::float::Double;
use crate::metrics::board::STATE_APPLIED;
use crate::metrics::lines::{has_line, law_scrape_shows_every_value};
use crate::metrics::{
    bool_number, exposed, gauge_count, is_scrape, MetricsView, ReadingValue, ReadingView, Series,
};
use crate::sample::Sample;
use crate::state::engine::{
    advanced_metrics, advanced_state, all_advanced_metrics, outcome_status, replied_too_late,
    resolved_metrics, resolved_state, shown, DueAction,
};
use crate::state::machine::{ActionOutcome, RuntimeState, TickDecision};
use crate::text::{decimal, signed_decimal};

verus! {

/// Whether a number says which state it is: 1 says on, 0 says off and -1 that none is known.
pub open spec fn says(number: i64, state: Option<BinaryState>) -> bool {
    &&& number == 1 <==> state == Some(BinaryState::On)
    &&& number == 0 <==> state == Some(BinaryState::Off)
    &&& number == -1 <==> state is None
}

/// Whether a number tells truth from falsehood: 1 is true and 0 is false.
pub open spec fn tells(number: i64, truth: bool) -> bool {
    &&& number == 1 <==> truth
    &&& number == 0 <==> !truth
}

/// Whether a number is a count, as far as a gauge can show it.
pub open spec fn measures(number: i64, count: int) -> bool {
    number == count || (number == i64::MAX && count > i64::MAX)
}

/// Whether a count went up by an amount. A count that passes the largest starts again at zero.
pub open spec fn went_up(before: u64, after: u64, amount: int) -> bool {
    after - before == amount || after - before == amount - 0x1_0000_0000_0000_0000
}

/// Whether one label set is there and all the others are as they were.
pub open spec fn only_at<V>(before: Map<Labels, V>, after: Map<Labels, V>, labels: Labels) -> bool {
    &&& after.contains_key(labels)
    &&& after.remove(labels) == before.remove(labels)
}

/// Whether one label set counts one more and all the others are as they were.
pub open spec fn one_more_at(
    before: Map<Labels, u64>,
    after: Map<Labels, u64>,
    labels: Labels,
) -> bool {
    &&& only_at(before, after, labels)
    &&& before.contains_key(labels) ==> went_up(before[labels], after[labels], 1)
    &&& !before.contains_key(labels) ==> after[labels] == 1
}

/// Whether one reading was added.
pub open spec fn one_more_reading(
    before: Seq<ReadingView>,
    after: Seq<ReadingView>,
    series: Series,
    labels: Labels,
    value: ReadingValue,
) -> bool {
    &&& after.len() == before.len() + 1
    &&& after.take(before.len() as int) == before
    &&& after.last().series == series
    &&& after.last().labels == labels
    &&& after.last().value == value
}

/// The label that tells one state from another.
pub open spec fn of_state(name: Seq<char>) -> Labels {
    seq![("name"@, name)]
}

/// The labels of a state and a target.
pub open spec fn of_target(name: Seq<char>, target: BinaryState) -> Labels {
    seq![
        ("name"@, name),
        (
            "target"@,
            if target == BinaryState::On {
                "on"@
            } else {
                "off"@
            },
        ),
    ]
}

/// Whether the gauges of a state show this one.
pub open spec fn shows_state(metrics: MetricsView, name: Seq<char>, state: RuntimeState) -> bool {
    let labels = of_state(name);
    &&& metrics.state_stale.contains_key(labels)
    &&& tells(metrics.state_stale[labels], state.stale)
    &&& metrics.state_ambiguous.contains_key(labels)
    &&& tells(metrics.state_ambiguous[labels], state.ambiguous)
    &&& metrics.state_desired.contains_key(labels)
    &&& says(metrics.state_desired[labels], state.desired_state)
    &&& metrics.state_applied.contains_key(labels)
    &&& says(metrics.state_applied[labels], state.applied_state)
    &&& metrics.state_pending.contains_key(labels)
    &&& tells(metrics.state_pending[labels], state.pending_target_state is Some)
    &&& metrics.http_pending.contains_key(labels)
    &&& tells(metrics.http_pending[labels], state.pending_target_state is Some)
    &&& metrics.state_default.contains_key(labels)
    &&& says(metrics.state_default[labels], Some(state.config.default_state))
    &&& metrics.action_sequence_step.contains_key(labels)
    &&& state.pending_target_state is None ==> metrics.action_sequence_step[labels] == -1
    &&& state.pending_target_state is Some ==> measures(
        metrics.action_sequence_step[labels],
        state.action_step_index as int,
    )
}

/// Truth values and counts as gauges: 1 and 0, and the count up to the largest number.
pub proof fn law_numbers_of_gauges(truth: bool, count: int)
    requires
        count >= 0,
    ensures
        tells(bool_number(truth), truth),
        measures(gauge_count(count), count),
{
}

/// Setting the status of a state shows, under its name, each of its parts in the gauge of
/// that part, whatever the other parts are: the applied state is -1 exactly if none is
/// known. The gauges of other states, and all other metrics, stay as they are.
pub proof fn law_status_is_shown_as_it_is(
    metrics: MetricsView,
    name: Seq<char>,
    stale: bool,
    ambiguous: bool,
    desired: Option<BinaryState>,
    applied: Option<BinaryState>,
    pending: Option<BinaryState>,
    default_state: BinaryState,
)
    ensures
        ({
            let after = metrics.status_set(
                name,
                stale,
                ambiguous,
                desired,
                applied,
                pending,
                default_state,
            );
            let labels = of_state(name);
            &&& only_at(metrics.state_stale, after.state_stale, labels)
            &&& tells(after.state_stale[labels], stale)
            &&& only_at(metrics.state_ambiguous, after.state_ambiguous, labels)
            &&& tells(after.state_ambiguous[labels], ambiguous)
            &&& only_at(metrics.state_desired, after.state_desired, labels)
            &&& says(after.state_desired[labels], desired)
            &&& only_at(metrics.state_applied, after.state_applied, labels)
            &&& says(after.state_applied[labels], applied)
            &&& only_at(metrics.state_pending, after.state_pending, labels)
            &&& tells(after.state_pending[labels], pending is Some)
            &&& only_at(metrics.http_pending, after.http_pending, labels)
            &&& tells(after.http_pending[labels], pending is Some)
            &&& only_at(metrics.state_default, after.state_default, labels)
            &&& says(after.state_default[labels], Some(default_state))
            &&& after == (MetricsView {
                state_stale: after.state_stale,
                state_ambiguous: after.state_ambiguous,
                state_desired: after.state_desired,
                state_applied: after.state_applied,
                state_pending: after.state_pending,
                http_pending: after.http_pending,
                state_default: after.state_default,
                ..metrics
            })
        }),
{
    let after = metrics.status_set(
        name,
        stale,
        ambiguous,
        desired,
        applied,
        pending,
        default_state,
    );
    let labels = of_state(name);
    assert(after.state_stale.remove(labels) =~= metrics.state_stale.remove(labels));
    assert(after.state_ambiguous.remove(labels) =~= metrics.state_ambiguous.remove(labels));
    assert(after.state_desired.remove(labels) =~= metrics.state_desired.remove(labels));
    assert(after.state_applied.remove(labels) =~= metrics.state_applied.remove(labels));
    assert(after.state_pending.remove(labels) =~= metrics.state_pending.remove(labels));
    assert(after.http_pending.remove(labels) =~= metrics.http_pending.remove(labels));
    assert(after.state_default.remove(labels) =~= metrics.state_default.remove(labels));
}

/// Showing the progress and the status of a state shows that state.
proof fn lemma_shown(metrics: MetricsView, name: Seq<char>, state: RuntimeState, now: Instant)
    ensures
        shows_state(shown(metrics, name, name, state, now), name, state),
{
}

proof fn lemma_tick_shows(metrics: MetricsView, state: RuntimeState, http: HttpConfig, now: Instant)
    ensures
        shows_state(
            advanced_metrics(metrics, state, http, now),
            state.config.name@,
            advanced_state(state, http, now),
        ),
{
    let name = state.config.name@;
    let after = advanced_state(state, http, now);
    let aged = match state.latest_sample_at {
        Some(at) => metrics.input_aged(name, Duration { nanos: nanos_since(now, at) as u128 }),
        None => metrics,
    };
    let timed = match state.ticked(now).1 {
        TickDecision::WaitTimedOut { target, .. } => aged.wait_timed_out(name, target),
        _ => aged,
    };
    let moved = if state.applied_state != after.applied_state && after.applied_state is Some {
        timed.transitioned(name, after.applied_state->0)
    } else {
        timed
    };
    lemma_shown(moved, name, after, now);
}

proof fn lemma_result_shows(
    metrics: MetricsView,
    state: RuntimeState,
    action: DueAction,
    outcome: ActionOutcome,
    http: HttpConfig,
    now: Instant,
)
    requires
        action.state_name@ == state.config.name@,
    ensures
        shows_state(
            resolved_metrics(metrics, state, action, outcome, http, now),
            state.config.name@,
            resolved_state(state, action, outcome, http, now),
        ),
{
    let name = state.config.name@;
    let after = resolved_state(state, action, outcome, http, now);
    let attempted = metrics.attempted(
        name,
        action.target,
        !(outcome is Failure),
        outcome_status(outcome),
    );
    let timed = if replied_too_late(state, action, now) {
        attempted.wait_timed_out(name, action.target)
    } else {
        attempted
    };
    let moved = if state.applied_state != after.applied_state {
        timed.transitioned(name, action.target)
    } else {
        timed
    };
    lemma_shown(moved, name, after, now);
}

/// A tick shows the state that it leaves, and so does the result of an attempt: the applied
/// state reads -1 only while none is known.
pub proof fn law_engine_shows_the_state_it_leaves(
    metrics: MetricsView,
    state: RuntimeState,
    action: DueAction,
    outcome: ActionOutcome,
    http: HttpConfig,
    now: Instant,
)
    ensures
        shows_state(
            advanced_metrics(metrics, state, http, now),
            state.config.name@,
            advanced_state(state, http, now),
        ),
        action.state_name@ == state.config.name@ ==> shows_state(
            resolved_metrics(metrics, state, action, outcome, http, now),
            state.config.name@,
            resolved_state(state, action, outcome, http, now),
        ),
{
    lemma_tick_shows(metrics, state, http, now);
    if action.state_name@ == state.config.name@ {
        lemma_result_shows(metrics, state, action, outcome, http, now);
    }
}

/// Ticking one state leaves the gauges of a state with another name as they are.
proof fn lemma_other_state_stays_shown(
    metrics: MetricsView,
    name: Seq<char>,
    kept: RuntimeState,
    state: RuntimeState,
    http: HttpConfig,
    now: Instant,
)
    requires
        shows_state(metrics, name, kept),
        name != state.config.name@,
    ensures
        shows_state(advanced_metrics(metrics, state, http, now), name, kept),
{
    let other = of_state(state.config.name@);
    assert(of_state(name)[0].1 == name);
    assert(other[0].1 == state.config.name@);
    assert(of_state(name) != other);
}

/// After a tick of the engine the gauges of every state show what the tick left of it.
pub proof fn law_tick_shows_every_state(
    metrics: MetricsView,
    states: Seq<RuntimeState>,
    http: HttpConfig,
    now: Instant,
)
    requires
        forall|i: int, j: int|
            0 <= i < j < states.len() ==> #[trigger] states[i].config.name@
                != #[trigger] states[j].config.name@,
    ensures
        forall|i: int|
            0 <= i < states.len() ==> shows_state(
                all_advanced_metrics(metrics, states, http, now),
                #[trigger] states[i].config.name@,
                advanced_state(states[i], http, now),
            ),
    decreases states.len(),
{
    if states.len() > 0 {
        let earlier = states.drop_last();
        let last = states.last();
        let before = all_advanced_metrics(metrics, earlier, http, now);
        assert forall|i: int, j: int| 0 <= i < j < earlier.len() implies
            #[trigger] earlier[i].config.name@ != #[trigger] earlier[j].config.name@ by {
            assert(states[i].config.name@ != states[j].config.name@);
        }
        law_tick_shows_every_state(metrics, earlier, http, now);
        assert forall|i: int| 0 <= i < states.len() implies shows_state(
            all_advanced_metrics(metrics, states, http, now),
            #[trigger] states[i].config.name@,
            advanced_state(states[i], http, now),
        ) by {
            if i < states.len() - 1 {
                assert(earlier[i] == states[i]);
                assert(shows_state(
                    before,
                    earlier[i].config.name@,
                    advanced_state(earlier[i], http, now),
                ));
                assert(states[i].config.name@ != states[states.len() - 1].config.name@);
                lemma_other_state_stays_shown(
                    before,
                    states[i].config.name@,
                    advanced_state(states[i], http, now),
                    last,
                    http,
                    now,
                );
            } else {
                assert(states[i] == last);
                lemma_tick_shows(before, last, http, now);
            }
        }
    }
}

/// A tick counts a wait that timed out, by its target, and a target that it applied; it
/// reads the age of the input, if there is one, and the time until the next attempt, which
/// is zero if none is scheduled. It counts no attempt and touches no metric of devices or
/// files.
pub proof fn law_tick_counts_what_happened(
    metrics: MetricsView,
    state: RuntimeState,
    http: HttpConfig,
    now: Instant,
)
    ensures
        ({
            let after = advanced_metrics(metrics, state, http, now);
            let left = advanced_state(state, http, now);
            let name = state.config.name@;
            let first = metrics.readings.len() as int;
            &&& match state.ticked(now).1 {
                TickDecision::WaitTimedOut { target, .. } => one_more_at(
                    metrics.action_wait_timeouts,
                    after.action_wait_timeouts,
                    of_target(name, target),
                ),
                _ => after.action_wait_timeouts == metrics.action_wait_timeouts,
            }
            &&& if left.applied_state is Some && left.applied_state != state.applied_state {
                one_more_at(
                    metrics.state_transitions,
                    after.state_transitions,
                    of_target(name, left.applied_state->0),
                )
            } else {
                after.state_transitions == metrics.state_transitions
            }
            &&& after.readings.len() == first + if state.latest_sample_at is Some {
                2int
            } else {
                1int
            }
            &&& after.readings.take(first) == metrics.readings
            &&& state.latest_sample_at matches Some(at) ==> {
                &&& after.readings[first].series == Series::StateInputAge
                &&& after.readings[first].labels == of_state(name)
                &&& after.readings[first].value matches ReadingValue::Seconds(age)
                    && age.nanos == if now.nanos >= at.nanos {
                    now.nanos - at.nanos
                } else {
                    0
                }
            }
            &&& after.readings.last().series == Series::HttpRetryDelay
            &&& after.readings.last().labels == of_state(name)
            &&& after.readings.last().value matches ReadingValue::Seconds(delay) && (
            left.next_retry_at is None ==> delay.nanos == 0) && (left.next_retry_at matches Some(
                at,
            ) ==> delay.nanos == if at.nanos >= now.nanos {
                at.nanos - now.nanos
            } else {
                0
            })
            &&& after == (MetricsView {
                state_stale: after.state_stale,
                state_ambiguous: after.state_ambiguous,
                state_desired: after.state_desired,
                state_applied: after.state_applied,
                state_pending: after.state_pending,
                http_pending: after.http_pending,
                state_default: after.state_default,
                action_sequence_step: after.action_sequence_step,
                action_wait_timeouts: after.action_wait_timeouts,
                state_transitions: after.state_transitions,
                readings: after.readings,
                ..metrics
            })
        }),
{
    let after = advanced_metrics(metrics, state, http, now);
    let left = advanced_state(state, http, now);
    let name = state.config.name@;
    assert(after.readings.take(metrics.readings.len() as int) =~= metrics.readings);
    if let TickDecision::WaitTimedOut { target, .. } = state.ticked(now).1 {
        law_counters_count_by_target(metrics, name, target);
    }
    if left.applied_state is Some {
        law_counters_count_by_target(metrics, name, left.applied_state->0);
    }
}

/// Transitions and timed-out waits are counted by state and target, one at a time, and
/// change nothing else.
pub proof fn law_counters_count_by_target(
    metrics: MetricsView,
    name: Seq<char>,
    target: BinaryState,
)
    ensures
        ({
            let after = metrics.transitioned(name, target);
            &&& one_more_at(
                metrics.state_transitions,
                after.state_transitions,
                of_target(name, target),
            )
            &&& after == (MetricsView { state_transitions: after.state_transitions, ..metrics })
        }),
        ({
            let after = metrics.wait_timed_out(name, target);
            &&& one_more_at(
                metrics.action_wait_timeouts,
                after.action_wait_timeouts,
                of_target(name, target),
            )
            &&& after == (MetricsView {
                action_wait_timeouts: after.action_wait_timeouts,
                ..metrics
            })
        }),
{
    let labels = of_target(name, target);
    let moved = metrics.transitioned(name, target);
    let waited = metrics.wait_timed_out(name, target);
    assert(moved.state_transitions.remove(labels) =~= metrics.state_transitions.remove(labels));
    assert(waited.action_wait_timeouts.remove(labels) =~= metrics.action_wait_timeouts.remove(
        labels,
    ));
}

/// An attempt is counted by state, target and result. The status of its response, if there
/// was one, is read under the name of the state. Nothing else changes.
pub proof fn law_attempt_is_counted_by_result(
    metrics: MetricsView,
    name: Seq<char>,
    target: BinaryState,
    success: bool,
    status: Option<u16>,
)
    ensures
        ({
            let after = metrics.attempted(name, target, success, status);
            let result = if success {
                "success"@
            } else {
                "failure"@
            };
            &&& one_more_at(
                metrics.http_attempts,
                after.http_attempts,
                of_target(name, target).push(("result"@, result)),
            )
            &&& status is None ==> after.readings == metrics.readings
            &&& status is Some ==> one_more_reading(
                metrics.readings,
                after.readings,
                Series::HttpLastStatusCode,
                of_state(name),
                ReadingValue::Integer(status->0 as i64),
            )
            &&& after == (MetricsView {
                http_attempts: after.http_attempts,
                readings: after.readings,
                ..metrics
            })
        }),
{
    let after = metrics.attempted(name, target, success, status);
    let result = if success {
        "success"@
    } else {
        "failure"@
    };
    let labels = of_target(name, target).push(("result"@, result));
    assert(labels =~= crate::metrics::attempt_labels(name, target, success));
    assert(after.http_attempts.remove(labels) =~= metrics.http_attempts.remove(labels));
    assert(after.readings.take(metrics.readings.len() as int) =~= metrics.readings);
}

/// The result of an attempt is counted as a success unless it failed: a wait that still
/// polls counts as one. A transition is counted when the applied state changed, and a
/// timed-out wait when the reply came after its deadline.
pub proof fn law_result_counts_what_happened(
    metrics: MetricsView,
    state: RuntimeState,
    action: DueAction,
    outcome: ActionOutcome,
    http: HttpConfig,
    now: Instant,
)
    ensures
        ({
            let after = resolved_metrics(metrics, state, action, outcome, http, now);
            let left = resolved_state(state, action, outcome, http, now);
            let name = action.state_name@;
            let result = if outcome is Failure {
                "failure"@
            } else {
                "success"@
            };
            let late = state.pending_target_state == Some(action.target)
                && state.action_step_index == action.step_index && state.deadline_passed(now);
            &&& one_more_at(
                metrics.http_attempts,
                after.http_attempts,
                of_target(name, action.target).push(("result"@, result)),
            )
            &&& if late {
                one_more_at(
                    metrics.action_wait_timeouts,
                    after.action_wait_timeouts,
                    of_target(name, action.target),
                )
            } else {
                after.action_wait_timeouts == metrics.action_wait_timeouts
            }
            &&& if left.applied_state != state.applied_state {
                one_more_at(
                    metrics.state_transitions,
                    after.state_transitions,
                    of_target(name, action.target),
                )
            } else {
                after.state_transitions == metrics.state_transitions
            }
            &&& after == (MetricsView {
                state_stale: after.state_stale,
                state_ambiguous: after.state_ambiguous,
                state_desired: after.state_desired,
                state_applied: after.state_applied,
                state_pending: after.state_pending,
                http_pending: after.http_pending,
                state_default: after.state_default,
                action_sequence_step: after.action_sequence_step,
                action_wait_timeouts: after.action_wait_timeouts,
                state_transitions: after.state_transitions,
                http_attempts: after.http_attempts,
                readings: after.readings,
                ..metrics
            })
        }),
{
    let name = action.state_name@;
    law_attempt_is_counted_by_result(
        metrics,
        name,
        action.target,
        !(outcome is Failure),
        outcome_status(outcome),
    );
    law_counters_count_by_target(metrics, name, action.target);
}

/// The step gauge of a state shows the step, or -1 while no sequence is pending. The retry
/// delay and the age of the input are read under the name of the state, the value of the
/// input under its name and field.
pub proof fn law_progress_is_shown(
    metrics: MetricsView,
    name: Seq<char>,
    step: Option<usize>,
    delay: Duration,
    field: Seq<char>,
    value: Double,
)
    ensures
        ({
            let after = metrics.step_set(name, step);
            &&& only_at(metrics.action_sequence_step, after.action_sequence_step, of_state(name))
            &&& step is None <==> after.action_sequence_step[of_state(name)] == -1
            &&& step matches Some(at) ==> measures(
                after.action_sequence_step[of_state(name)],
                at as int,
            )
            &&& after == (MetricsView {
                action_sequence_step: after.action_sequence_step,
                ..metrics
            })
        }),
        ({
            let after = metrics.retry_delay_set(name, delay);
            &&& one_more_reading(
                metrics.readings,
                after.readings,
                Series::HttpRetryDelay,
                of_state(name),
                ReadingValue::Seconds(delay),
            )
            &&& after == (MetricsView { readings: after.readings, ..metrics })
        }),
        ({
            let after = metrics.input_aged(name, delay);
            &&& one_more_reading(
                metrics.readings,
                after.readings,
                Series::StateInputAge,
                of_state(name),
                ReadingValue::Seconds(delay),
            )
            &&& after == (MetricsView { readings: after.readings, ..metrics })
        }),
        ({
            let after = metrics.input_observed(name, field, value, delay);
            let first = after.readings.take(metrics.readings.len() as int + 1);
            &&& one_more_reading(
                metrics.readings,
                first,
                Series::StateInputValue,
                of_state(name).push(("field"@, field)),
                ReadingValue::Double(value),
            )
            &&& one_more_reading(
                first,
                after.readings,
                Series::StateInputAge,
                of_state(name),
                ReadingValue::Seconds(delay),
            )
            &&& after == (MetricsView { readings: after.readings, ..metrics })
        }),
{
    let stepped = metrics.step_set(name, step);
    let labels = of_state(name);
    assert(stepped.action_sequence_step.remove(labels) =~= metrics.action_sequence_step.remove(
        labels,
    ));
    let count = metrics.readings.len() as int;
    let delayed = metrics.retry_delay_set(name, delay);
    assert(delayed.readings.take(count) =~= metrics.readings);
    let aged = metrics.input_aged(name, delay);
    assert(aged.readings.take(count) =~= metrics.readings);
    let observed = metrics.input_observed(name, field, value, delay);
    let first = observed.readings.take(count + 1);
    assert(first.take(count) =~= metrics.readings);
    assert(labels.push(("field"@, field)) =~= seq![("name"@, name), ("field"@, field)]);
}

/// A written batch adds its rows to those written, counts one batch, shows the rows of the
/// file, and reads the time. Nothing else changes.
pub proof fn law_written_rows_are_counted(
    metrics: MetricsView,
    rows: u64,
    active_file_rows: u64,
    now: UtcTime,
)
    ensures
        ({
            let after = metrics.rows_written(rows, active_file_rows, now);
            &&& went_up(metrics.parquet_rows_written, after.parquet_rows_written, rows as int)
            &&& went_up(metrics.parquet_batches_written, after.parquet_batches_written, 1)
            &&& measures(after.parquet_active_file_rows, active_file_rows as int)
            &&& one_more_reading(
                metrics.readings,
                after.readings,
                Series::ParquetLastWrite,
                seq![],
                ReadingValue::Integer(now.secs),
            )
            &&& after == (MetricsView {
                parquet_rows_written: after.parquet_rows_written,
                parquet_batches_written: after.parquet_batches_written,
                parquet_active_file_rows: after.parquet_active_file_rows,
                readings: after.readings,
                ..metrics
            })
        }),
{
    let after = metrics.rows_written(rows, active_file_rows, now);
    assert(after.readings.take(metrics.readings.len() as int) =~= metrics.readings);
    assert(Seq::<(Seq<char>, Seq<char>)>::empty() =~= seq![]);
}

/// Whether a metric is among some readings.
pub open spec fn is_read(readings: Seq<ReadingView>, series: Series, value: ReadingValue) -> bool {
    exists|i: int|
        0 <= i < readings.len() && (#[trigger] readings[i]).series == series && readings[i].value
            == value
}

/// The optional text of a label.
pub open spec fn or_nothing(text: Option<String>) -> Seq<char> {
    if text is Some {
        text->0@
    } else {
        seq![]
    }
}

/// The labels under which a device is identified.
pub open spec fn identity(sample: Sample) -> Labels {
    seq![
        ("serial"@, decimal(sample.serial as nat)),
        ("name"@, or_nothing(sample.name)),
        ("model"@, or_nothing(sample.model)),
        ("address"@, or_nothing(sample.address_display)),
        ("firmware_version"@, or_nothing(sample.firmware_version)),
        ("rssi_dbm"@, signed_decimal(sample.rssi_dbm as int)),
    ]
}

/// A sample is counted in all and for its device, identifies its device in place of what was
/// known of it, and is read measurement by measurement under its serial. A charge or runtime
/// that is not known is read as missing. Nothing else changes.
pub proof fn law_sample_is_read_field_by_field(metrics: MetricsView, sample: Sample)
    ensures
        ({
            let after = metrics.sampled(sample);
            let added = after.readings.skip(metrics.readings.len() as int);
            let serial: Labels = seq![("serial"@, decimal(sample.serial as nat))];
            &&& went_up(metrics.observations_received, after.observations_received, 1)
            &&& one_more_at(
                metrics.device_observations_received,
                after.device_observations_received,
                serial,
            )
            &&& after.devices.contains_key(sample.serial)
            &&& after.devices[sample.serial] == identity(sample)
            &&& after.devices.remove(sample.serial) == metrics.devices.remove(sample.serial)
            &&& after.device_info.contains_key(identity(sample))
            &&& after.device_info[identity(sample)] == 1
            &&& after.readings.take(metrics.readings.len() as int) == metrics.readings
            &&& added.len() == 10
            &&& forall|i: int| 0 <= i < 10 ==> (#[trigger] added[i]).labels == serial
            &&& is_read(
                added,
                Series::LastObservationTime,
                ReadingValue::Integer(sample.observed_at.secs),
            )
            &&& is_read(added, Series::Voltage1, ReadingValue::Single(sample.voltage1_volts))
            &&& is_read(added, Series::Voltage2, ReadingValue::Single(sample.voltage2_volts))
            &&& is_read(added, Series::Current, ReadingValue::Single(sample.current_amps))
            &&& is_read(added, Series::Power, ReadingValue::Single(sample.power_watts))
            &&& is_read(
                added,
                Series::Temperature,
                ReadingValue::Single(sample.temperature_celsius),
            )
            &&& is_read(added, Series::Rssi, ReadingValue::Integer(sample.rssi_dbm as i64))
            &&& is_read(
                added,
                Series::PowerStatusCode,
                ReadingValue::Integer(sample.power_status_code as i64),
            )
            &&& sample.soc_percent is None ==> is_read(added, Series::Soc, ReadingValue::Missing)
            &&& sample.soc_percent matches Some(percent) ==> is_read(
                added,
                Series::Soc,
                ReadingValue::Integer(percent as i64),
            )
            &&& sample.runtime_minutes is None ==> is_read(
                added,
                Series::Runtime,
                ReadingValue::Missing,
            )
            &&& sample.runtime_minutes matches Some(minutes) ==> is_read(
                added,
                Series::Runtime,
                ReadingValue::Integer(minutes as i64),
            )
            &&& after == (MetricsView {
                observations_received: after.observations_received,
                devices: after.devices,
                devices_seen: after.devices_seen,
                device_observations_received: after.device_observations_received,
                device_info: after.device_info,
                readings: after.readings,
                ..metrics
            })
        }),
{
    let after = metrics.sampled(sample);
    let added = after.readings.skip(metrics.readings.len() as int);
    let serial: Labels = seq![("serial"@, decimal(sample.serial as nat))];
    assert(after.device_observations_received.remove(serial)
        =~= metrics.device_observations_received.remove(serial));
    assert(after.devices.remove(sample.serial) =~= metrics.devices.remove(sample.serial));
    assert(Seq::<char>::empty() =~= seq![]);
    assert(identity(sample) =~= crate::metrics::device_info_labels(sample));
    assert(after.readings.take(metrics.readings.len() as int) =~= metrics.readings);
    assert(added =~= crate::metrics::sample_readings(sample));
    assert(added[0].series == Series::LastObservationTime);
    assert(added[1].series == Series::Voltage1);
    assert(added[2].series == Series::Voltage2);
    assert(added[3].series == Series::Current);
    assert(added[4].series == Series::Power);
    assert(added[5].series == Series::Temperature);
    assert(added[6].series == Series::Soc);
    assert(added[7].series == Series::Runtime);
    assert(added[8].series == Series::Rssi);
    assert(added[9].series == Series::PowerStatusCode);
}

/// Whether a metric is exposed under a name, with a help text and a value.
pub open spec fn is_exposed(
    view: MetricsView,
    name: Seq<char>,
    help: Seq<char>,
    value: MetricValue,
) -> bool {
    exists|i: int|
        0 <= i < exposed(view).len() && (#[trigger] exposed(view)[i]).name == name && exposed(
            view,
        )[i].help == help.push('.') && exposed(view)[i].value == value
}

/// Every count and gauge is exposed under the name that says what it is.
pub proof fn law_metrics_go_by_their_names(view: MetricsView)
    ensures
        exposed(view).len() == 26,
        is_exposed(
            view,
            "wattdog_build_info"@,
            "Daemon build information"@,
            MetricValue::Gauges { numbers: view.build_info },
        ),
        is_exposed(
            view,
            "wattdog_up"@,
            "Whether any scanner transport is running"@,
            MetricValue::Gauge { number: view.scanner_running },
        ),
        is_exposed(
            view,
            "wattdog_ble_scanner_running"@,
            "Whether BLE scanner transport is running"@,
            MetricValue::Gauge { number: view.scanner_ble_running },
        ),
        is_exposed(
            view,
            "wattdog_observations_received"@,
            "Observed Thornwave advertisements"@,
            MetricValue::Counter { count: view.observations_received },
        ),
        is_exposed(
            view,
            "wattdog_observations_dropped"@,
            "Observations dropped before processing"@,
            MetricValue::Counter { count: view.observations_dropped },
        ),
        is_exposed(
            view,
            "wattdog_writer_dropped_observations"@,
            "Observations dropped before Parquet writer enqueue"@,
            MetricValue::Counter { count: view.writer_dropped_observations },
        ),
        is_exposed(
            view,
            "wattdog_devices_seen"@,
            "Number of Thornwave device serials seen"@,
            MetricValue::Gauge { number: view.devices_seen },
        ),
        is_exposed(
            view,
            "wattdog_device_info"@,
            "Latest Thornwave device identity information"@,
            MetricValue::Gauges { numbers: view.device_info },
        ),
        is_exposed(
            view,
            "wattdog_device_observations_received"@,
            "Observed advertisements by device"@,
            MetricValue::Counters { counts: view.device_observations_received },
        ),
        is_exposed(
            view,
            "wattdog_parquet_rows_written"@,
            "Rows written to Parquet"@,
            MetricValue::Counter { count: view.parquet_rows_written },
        ),
        is_exposed(
            view,
            "wattdog_parquet_batches_written"@,
            "Record batches written to Parquet"@,
            MetricValue::Counter { count: view.parquet_batches_written },
        ),
        is_exposed(
            view,
            "wattdog_parquet_write_errors"@,
            "Parquet write errors"@,
            MetricValue::Counter { count: view.parquet_write_errors },
        ),
        is_exposed(
            view,
            "wattdog_parquet_active_file_open"@,
            "Whether a Parquet active file is open"@,
            MetricValue::Gauge { number: view.parquet_active_file_open },
        ),
        is_exposed(
            view,
            "wattdog_parquet_active_file_rows"@,
            "Rows written to current active Parquet file"@,
            MetricValue::Gauge { number: view.parquet_active_file_rows },
        ),
        is_exposed(
            view,
            "wattdog_parquet_rolls"@,
            "Completed Parquet file rolls"@,
            MetricValue::Counter { count: view.parquet_rolls },
        ),
        is_exposed(
            view,
            "wattdog_state_stale"@,
            "Whether latest state input is stale"@,
            MetricValue::Gauges { numbers: view.state_stale },
        ),
        is_exposed(
            view,
            "wattdog_state_ambiguous"@,
            "Whether state conditions are ambiguous"@,
            MetricValue::Gauges { numbers: view.state_ambiguous },
        ),
        is_exposed(
            view,
            "wattdog_state_desired"@,
            "Desired state: on=1, off=0, unknown=-1"@,
            MetricValue::Gauges { numbers: view.state_desired },
        ),
        is_exposed(
            view,
            "wattdog_state_applied"@,
            "Applied state: on=1, off=0, unknown=-1"@,
            MetricValue::Gauges { numbers: view.state_applied },
        ),
        is_exposed(
            view,
            "wattdog_state_pending"@,
            "Whether an action is pending"@,
            MetricValue::Gauges { numbers: view.state_pending },
        ),
        is_exposed(
            view,
            "wattdog_state_default"@,
            "Configured default state: on=1, off=0"@,
            MetricValue::Gauges { numbers: view.state_default },
        ),
        is_exposed(
            view,
            "wattdog_state_transitions"@,
            "State desired transitions"@,
            MetricValue::Counters { counts: view.state_transitions },
        ),
        is_exposed(
            view,
            "wattdog_http_attempts"@,
            "HTTP action attempts"@,
            MetricValue::Counters { counts: view.http_attempts },
        ),
        is_exposed(
            view,
            "wattdog_http_pending"@,
            "Whether an HTTP action is pending"@,
            MetricValue::Gauges { numbers: view.http_pending },
        ),
        is_exposed(
            view,
            "wattdog_action_wait_timeouts"@,
            "JSON waits that reached their deadline"@,
            MetricValue::Counters { counts: view.action_wait_timeouts },
        ),
        is_exposed(
            view,
            "wattdog_action_sequence_step"@,
            "Current action sequence step, none=-1"@,
            MetricValue::Gauges { numbers: view.action_sequence_step },
        ),
{
    let all = exposed(view);
    assert(all[0].name == "wattdog_build_info"@);
    assert(all[1].name == "wattdog_up"@);
    assert(all[2].name == "wattdog_ble_scanner_running"@);
    assert(all[3].name == "wattdog_observations_received"@);
    assert(all[4].name == "wattdog_observations_dropped"@);
    assert(all[5].name == "wattdog_writer_dropped_observations"@);
    assert(all[6].name == "wattdog_devices_seen"@);
    assert(all[7].name == "wattdog_device_info"@);
    assert(all[8].name == "wattdog_device_observations_received"@);
    assert(all[9].name == "wattdog_parquet_rows_written"@);
    assert(all[10].name == "wattdog_parquet_batches_written"@);
    assert(all[11].name == "wattdog_parquet_write_errors"@);
    assert(all[12].name == "wattdog_parquet_active_file_open"@);
    assert(all[13].name == "wattdog_parquet_active_file_rows"@);
    assert(all[14].name == "wattdog_parquet_rolls"@);
    assert(all[15].name == "wattdog_state_stale"@);
    assert(all[16].name == "wattdog_state_ambiguous"@);
    assert(all[17].name == "wattdog_state_desired"@);
    assert(all[18].name == "wattdog_state_applied"@);
    assert(all[19].name == "wattdog_state_pending"@);
    assert(all[20].name == "wattdog_state_default"@);
    assert(all[21].name == "wattdog_state_transitions"@);
    assert(all[22].name == "wattdog_http_attempts"@);
    assert(all[23].name == "wattdog_http_pending"@);
    assert(all[24].name == "wattdog_action_wait_timeouts"@);
    assert(all[25].name == "wattdog_action_sequence_step"@);
}

/// Whether a metric has a name and a help text.
pub open spec fn goes_by(series: Series, name: Seq<char>, help: Seq<char>) -> bool {
    series.metric_name() == name && series.help_text() == help
}

/// Every metric that shows real numbers has the name that says what it is.
pub proof fn law_readings_go_by_their_names()
    ensures
        goes_by(
            Series::LastObservationTime,
            "wattdog_last_observation_time_seconds"@,
            "Last observation timestamp by device"@,
        ),
        goes_by(
            Series::Voltage1,
            "wattdog_voltage1_volts"@,
            "Latest advertised voltage 1"@,
        ),
        goes_by(
            Series::Voltage2,
            "wattdog_voltage2_volts"@,
            "Latest advertised voltage 2"@,
        ),
        goes_by(
            Series::Current,
            "wattdog_current_amperes"@,
            "Latest advertised current"@,
        ),
        goes_by(
            Series::Power,
            "wattdog_power_watts"@,
            "Latest advertised power"@,
        ),
        goes_by(
            Series::Temperature,
            "wattdog_temperature_celsius"@,
            "Latest advertised temperature"@,
        ),
        goes_by(
            Series::Soc,
            "wattdog_soc_percent"@,
            "Latest advertised state of charge"@,
        ),
        goes_by(
            Series::Runtime,
            "wattdog_runtime_minutes"@,
            "Latest advertised runtime"@,
        ),
        goes_by(
            Series::Rssi,
            "wattdog_rssi_dbm"@,
            "Latest advertised RSSI"@,
        ),
        goes_by(
            Series::PowerStatusCode,
            "wattdog_power_status_code"@,
            "Latest advertised power status code"@,
        ),
        goes_by(
            Series::ParquetLastWrite,
            "wattdog_parquet_last_successful_write_timestamp_seconds"@,
            "Unix timestamp of last successful Parquet write"@,
        ),
        goes_by(
            Series::StateInputValue,
            "wattdog_state_input_value"@,
            "Latest state input value"@,
        ),
        goes_by(
            Series::StateInputAge,
            "wattdog_state_input_age_seconds"@,
            "Age of latest state input sample"@,
        ),
        goes_by(
            Series::HttpLastStatusCode,
            "wattdog_http_last_status_code"@,
            "Last HTTP action status code"@,
        ),
        goes_by(
            Series::HttpRetryDelay,
            "wattdog_http_retry_delay_seconds"@,
            "Current HTTP action retry delay"@,
        ),
{
}

/// Each metric that shows real numbers is listed once.
pub proof fn law_every_series_is_listed_once(series: Series)
    ensures
        Series::every().len() == 15,
        exists|i: int| 0 <= i < 15 && #[trigger] Series::every()[i] == series,
        Series::every().no_duplicates(),
{
    let all = Series::every();
    assert(all[0] == Series::LastObservationTime);
    assert(all[1] == Series::Voltage1);
    assert(all[2] == Series::Voltage2);
    assert(all[3] == Series::Current);
    assert(all[4] == Series::Power);
    assert(all[5] == Series::Temperature);
    assert(all[6] == Series::Soc);
    assert(all[7] == Series::Runtime);
    assert(all[8] == Series::Rssi);
    assert(all[9] == Series::PowerStatusCode);
    assert(all[10] == Series::ParquetLastWrite);
    assert(all[11] == Series::StateInputValue);
    assert(all[12] == Series::StateInputAge);
    assert(all[13] == Series::HttpLastStatusCode);
    assert(all[14] == Series::HttpRetryDelay);
}

/// A scrape has a line for the applied state of every state that is shown: under its name it
/// reads 1 for on, 0 for off and -1 while none is known.
pub proof fn law_scrape_tells_the_applied_state(
    text: Seq<char>,
    view: MetricsView,
    further: Seq<char>,
    name: Seq<char>,
    state: RuntimeState,
)
    requires
        is_scrape(text, view, further),
        shows_state(view, name, state),
    ensures
        ({
            let start = "wattdog_state_applied{name=\""@ + name;
            &&& state.applied_state == Some(BinaryState::On) ==> has_line(
                text,
                start + "\"} 1\n"@,
            )
            &&& state.applied_state == Some(BinaryState::Off) ==> has_line(
                text,
                start + "\"} 0\n"@,
            )
            &&& state.applied_state is None ==> has_line(text, start + "\"} -1\n"@)
        }),
{
    let labels = of_state(name);
    let number = view.state_applied[labels];
    lemma_applied_entry(view);
    law_scrape_shows_every_value(text, view, further, STATE_APPLIED as int, labels);
    lemma_applied_line(name, number);
}

/// Where the applied states are exposed.
proof fn lemma_applied_entry(view: MetricsView)
    ensures
        0 <= STATE_APPLIED < exposed(view).len(),
        label_sets(exposed(view)[STATE_APPLIED as int]) == view.state_applied.dom(),
        forall|labels: Labels| #[trigger]
            value_line(exposed(view)[STATE_APPLIED as int], labels) == gauge_line(
                "wattdog_state_applied"@,
                "{"@ + labels_text(labels) + "}"@,
                view.state_applied[labels],
            ),
{
}

/// The line of an applied state, part by part.
proof fn lemma_applied_line(name: Seq<char>, number: i64)
    ensures
        ({
            let line = gauge_line(
                "wattdog_state_applied"@,
                "{"@ + labels_text(of_state(name)) + "}"@,
                number,
            );
            let start = "wattdog_state_applied{name=\""@ + name;
            &&& number == 1 ==> line == start + "\"} 1\n"@
            &&& number == 0 ==> line == start + "\"} 0\n"@
            &&& number == -1 ==> line == start + "\"} -1\n"@
        }),
{
    reveal_strlit("wattdog_state_applied{name=\"");
    reveal_strlit("wattdog_state_applied");
    reveal_strlit("{");
    reveal_strlit("}");
    reveal_strlit("name");
    reveal_strlit("=\"");
    reveal_strlit("\"");
    reveal_strlit(" ");
    reveal_strlit("\n");
    reveal_strlit("-");
    reveal_strlit("\"} 1\n");
    reveal_strlit("\"} 0\n");
    reveal_strlit("\"} -1\n");
    let labels = of_state(name);
    let head = "wattdog_state_applied"@ + ("{"@ + labels_text(labels) + "}"@) + " "@;
    let start = "wattdog_state_applied{name=\""@ + name;
    assert(labels_text(labels) == label_text(labels[0]));
    assert("wattdog_state_applied{name=\""@ =~= "wattdog_state_applied"@ + "{"@ + "name"@
        + "=\""@);
    assert(head =~= start + seq!['"', '}', ' ']);
    assert(decimal(1) =~= seq!['1']);
    assert(decimal(0) =~= seq!['0']);
    assert("\"} 1\n"@ =~= seq!['"', '}', ' '] + seq!['1'] + "\n"@);
    assert("\"} 0\n"@ =~= seq!['"', '}', ' '] + seq!['0'] + "\n"@);
    assert("\"} -1\n"@ =~= seq!['"', '}', ' '] + ("-"@ + seq!['1']) + "\n"@);
    if number == 1 {
        assert(head + seq!['1'] + "\n"@ =~= start + "\"} 1\n"@);
    } else if number == 0 {
        assert(head + seq!['0'] + "\n"@ =~= start + "\"} 0\n"@);
    } else if number == -1 {
        assert(head + ("-"@ + seq!['1']) + "\n"@ =~= start + "\"} -1\n"@);
    }
}

} // verus!
