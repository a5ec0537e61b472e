//! Action URLs are secrets: nothing that the metrics show depends on them.

use vstd::prelude::*;

use crate::clock::{nanos_since, Duration, Instant};
use crate::config::{ActionStepConfig, BinaryState, HttpConfig, StateConfig, TransitionConfig};
use crate::float::Double;
use crate::metrics::MetricsView;
use crate::sample::Sample;
use crate::state::engine::{
    advanced_metrics, advanced_state, all_advanced_metrics, observed_metrics, resolved_metrics,
    resolved_state, DueAction,
};
use crate::state::machine::{ActionOutcome, RuntimeState};
use crate::state::properties::evaluates_at;

verus! {

/// Whether two steps differ at most in where and how a request is sent and in the JSON
/// value that it waits for.
pub open spec fn alike_steps(a: ActionStepConfig, b: ActionStepConfig) -> bool {
    match (a, b) {
        (ActionStepConfig::Request { .. }, ActionStepConfig::Request { .. }) => true,
        (
            ActionStepConfig::WaitForJson { poll_every, timeout, on_timeout, .. },
            ActionStepConfig::WaitForJson {
                poll_every: other_every,
                timeout: other_timeout,
                on_timeout: other_policy,
                ..
            },
        ) => poll_every == other_every && timeout == other_timeout && on_timeout == other_policy,
        (
            ActionStepConfig::Delay { duration },
            ActionStepConfig::Delay { duration: other_duration },
        ) => duration == other_duration,
        _ => false,
    }
}

/// Whether two transitions differ at most in their requests.
pub open spec fn alike_transitions(a: TransitionConfig, b: TransitionConfig) -> bool {
    &&& a.op == b.op
    &&& a.value == b.value
    &&& a.duration == b.duration
    &&& a.hold_for == b.hold_for
    &&& a.steps().len() == b.steps().len()
    &&& forall|i: int|
        0 <= i < a.steps().len() ==> alike_steps(#[trigger] a.steps()[i], b.steps()[i])
}

/// Whether two states are configured alike but for their requests.
pub open spec fn alike_configs(a: StateConfig, b: StateConfig) -> bool {
    &&& a.name == b.name
    &&& a.field == b.field
    &&& a.default_state == b.default_state
    &&& a.stale_after == b.stale_after
    &&& alike_transitions(a.on, b.on)
    &&& alike_transitions(a.off, b.off)
}

/// Whether two runtime states are alike but for the requests of their configuration.
pub open spec fn alike(a: RuntimeState, b: RuntimeState) -> bool {
    &&& alike_configs(a.config, b.config)
    &&& b == (RuntimeState { config: b.config, ..a })
}

proof fn lemma_alike_step(a: RuntimeState, b: RuntimeState)
    requires
        alike(a, b),
    ensures
        a.step() is Some <==> b.step() is Some,
        a.step() is Some ==> alike_steps(a.step()->0, b.step()->0),
        a.poll_interval() == b.poll_interval(),
{
    if a.pending_target_state is Some {
        let target = a.pending_target_state->0;
        assert(alike_transitions(a.transition_to(target), b.transition_to(target)));
        if a.action_step_index < a.steps(target).len() {
            assert(alike_steps(
                a.steps(target)[a.action_step_index as int],
                b.steps(target)[a.action_step_index as int],
            ));
        }
    }
}

proof fn lemma_alike_advanced(
    a: RuntimeState,
    b: RuntimeState,
    target: BinaryState,
    now: Instant,
)
    requires
        alike(a, b),
    ensures
        alike(a.advanced(target, now), b.advanced(target, now)),
{
    assert(alike_transitions(a.transition_to(target), b.transition_to(target)));
}

proof fn lemma_alike_stepped(a: RuntimeState, b: RuntimeState, now: Instant)
    requires
        alike(a, b),
    ensures
        alike(a.stepped(now).0, b.stepped(now).0),
        a.stepped(now).1 == b.stepped(now).1,
    decreases a.steps_left(),
{
    lemma_alike_step(a, b);
    match a.step() {
        Some(ActionStepConfig::Delay { duration }) => {
            if nanos_since(now, a.step_start(now)) >= duration.nanos {
                let target = a.pending_target_state->0;
                a.lemma_step_count_fits(target);
                let begun = RuntimeState { step_started_at: Some(a.step_start(now)), ..a };
                let other = RuntimeState { step_started_at: Some(b.step_start(now)), ..b };
                lemma_alike_advanced(begun, other, target, now);
                lemma_alike_stepped(
                    begun.advanced(target, now),
                    other.advanced(target, now),
                    now,
                );
            }
        },
        _ => {},
    }
}

/// Two states that are alike but for their requests tick alike and decide alike.
pub proof fn law_decisions_do_not_depend_on_requests(a: RuntimeState, b: RuntimeState, now: Instant)
    requires
        alike(a, b),
    ensures
        alike(a.ticked(now).0, b.ticked(now).0),
        a.ticked(now).1 == b.ticked(now).1,
{
    let aged = a.aged(now);
    let other = b.aged(now);
    if a.pending_target_state is Some {
        lemma_alike_stepped(aged, other, now);
    } else if a.latest_value is None || a.latest_sample_at is None {
        if aged.desired_state is Some {
            let target = aged.desired_state->0;
            lemma_alike_stepped(aged.started(target, now), other.started(target, now), now);
        }
    } else if evaluates_at(a, now) {
        let qualified = aged.qualified(a.latest_value->0, now);
        let other_qualified = other.qualified(a.latest_value->0, now);
        assert(alike(qualified, other_qualified));
        if qualified.desired_state is Some {
            let target = qualified.desired_state->0;
            lemma_alike_stepped(
                qualified.started(target, now),
                other_qualified.started(target, now),
                now,
            );
        }
    }
}

/// Two states that are alike but for their requests record outcomes and timeouts alike.
pub proof fn law_records_do_not_depend_on_requests(
    a: RuntimeState,
    b: RuntimeState,
    outcome: ActionOutcome,
    now: Instant,
    initial: Duration,
    max: Duration,
)
    requires
        alike(a, b),
    ensures
        alike(a.recorded(outcome, now, initial, max), b.recorded(outcome, now, initial, max)),
        alike(a.timed_out(now, initial, max), b.timed_out(now, initial, max)),
        a.deadline_passed(now) == b.deadline_passed(now),
{
    lemma_alike_step(a, b);
    lemma_alike_advanced(a, b, a.pending_target_state->0, now);
}

/// What the metrics show of a tick does not depend on action URLs.
pub proof fn law_tick_metrics_do_not_show_urls(
    metrics: MetricsView,
    a: Seq<RuntimeState>,
    b: Seq<RuntimeState>,
    http: HttpConfig,
    now: Instant,
)
    requires
        a.len() == b.len(),
        forall|i: int| 0 <= i < a.len() ==> alike(#[trigger] a[i], b[i]),
    ensures
        all_advanced_metrics(metrics, a, http, now) == all_advanced_metrics(metrics, b, http, now),
        forall|i: int|
            0 <= i < a.len() ==> alike(
                advanced_state(#[trigger] a[i], http, now),
                advanced_state(b[i], http, now),
            ),
    decreases a.len(),
{
    assert forall|i: int| 0 <= i < a.len() implies alike(
        advanced_state(#[trigger] a[i], http, now),
        advanced_state(b[i], http, now),
    ) by {
        lemma_alike_advanced_state(a[i], b[i], http, now);
    }
    if a.len() > 0 {
        assert forall|i: int| 0 <= i < a.drop_last().len() implies alike(
            #[trigger] a.drop_last()[i],
            b.drop_last()[i],
        ) by {
            assert(alike(a[i], b[i]));
        }
        law_tick_metrics_do_not_show_urls(metrics, a.drop_last(), b.drop_last(), http, now);
        let earlier = all_advanced_metrics(metrics, a.drop_last(), http, now);
        assert(alike(a[a.len() - 1], b[b.len() - 1]));
        lemma_alike_advanced_metrics(earlier, a.last(), b.last(), http, now);
    }
}

proof fn lemma_alike_advanced_metrics(
    metrics: MetricsView,
    a: RuntimeState,
    b: RuntimeState,
    http: HttpConfig,
    now: Instant,
)
    requires
        alike(a, b),
    ensures
        advanced_metrics(metrics, a, http, now) == advanced_metrics(metrics, b, http, now),
{
    lemma_alike_advanced_state(a, b, http, now);
    law_decisions_do_not_depend_on_requests(a, b, now);
}

proof fn lemma_alike_advanced_state(
    a: RuntimeState,
    b: RuntimeState,
    http: HttpConfig,
    now: Instant,
)
    requires
        alike(a, b),
    ensures
        alike(advanced_state(a, http, now), advanced_state(b, http, now)),
{
    law_decisions_do_not_depend_on_requests(a, b, now);
    law_records_do_not_depend_on_requests(
        a.ticked(now).0,
        b.ticked(now).0,
        ActionOutcome::Success { status: 200 },
        now,
        http.retry_initial,
        http.retry_max,
    );
}

/// What the metrics show of an attempt does not depend on action URLs.
pub proof fn law_attempt_metrics_do_not_show_urls(
    metrics: MetricsView,
    a: RuntimeState,
    b: RuntimeState,
    action: DueAction,
    other: DueAction,
    outcome: ActionOutcome,
    http: HttpConfig,
    now: Instant,
)
    requires
        alike(a, b),
        other == (DueAction { action: other.action, ..action }),
    ensures
        resolved_metrics(metrics, a, action, outcome, http, now) == resolved_metrics(
            metrics,
            b,
            other,
            outcome,
            http,
            now,
        ),
        alike(
            resolved_state(a, action, outcome, http, now),
            resolved_state(b, other, outcome, http, now),
        ),
{
    law_records_do_not_depend_on_requests(
        a,
        b,
        outcome,
        now,
        http.retry_initial,
        http.retry_max,
    );
}

/// What the metrics show of a sample does not depend on action URLs.
pub proof fn law_sample_metrics_do_not_show_urls(
    metrics: MetricsView,
    a: Seq<RuntimeState>,
    b: Seq<RuntimeState>,
    sample: Sample,
)
    requires
        a.len() == b.len(),
        forall|i: int| 0 <= i < a.len() ==> alike(#[trigger] a[i], b[i]),
    ensures
        observed_metrics(metrics, a, sample) == observed_metrics(metrics, b, sample),
    decreases a.len(),
{
    if a.len() > 0 {
        assert forall|i: int| 0 <= i < a.drop_last().len() implies alike(
            #[trigger] a.drop_last()[i],
            b.drop_last()[i],
        ) by {
            assert(alike(a[i], b[i]));
        }
        law_sample_metrics_do_not_show_urls(metrics, a.drop_last(), b.drop_last(), sample);
        assert(alike(a[a.len() - 1], b[b.len() - 1]));
    }
}

/// States that are alike but for their requests take in a value alike.
pub proof fn law_observing_does_not_depend_on_requests(
    a: RuntimeState,
    b: RuntimeState,
    value: Double,
    now: Instant,
)
    requires
        alike(a, b),
    ensures
        alike(a.observed(value, now), b.observed(value, now)),
{
}

} // verus!
