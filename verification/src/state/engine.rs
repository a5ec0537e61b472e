//! Orchestrates all configured runtime states.

use vstd::prelude::*;

use crate::clock::{later, nanos_since, Duration, Instant};
use crate::config::{same_state, ActionStepConfig, BinaryState, Config, HttpConfig, StateConfig};
use crate::exposition::counted;
use crate::float::is_widened;
use crate::metrics::{target_labels, Metrics, MetricsView};
use crate::sample::Sample;
use crate::state::machine::{fresh, ActionOutcome, RuntimeState, TickDecision};
use crate::state::properties::law_decision_is_about_the_current_step;
use crate::text::{parse_unsigned, unsigned_number};

verus! {

/// Action attempt selected by a synchronous engine tick.
#[derive(Debug)]
pub struct DueAction {
    /// Index of the runtime state that owns this action.
    pub state_index: usize,
    /// Configured state name.
    pub state_name: String,
    /// Target output state.
    pub target: BinaryState,
    /// Zero-based sequence step.
    pub step_index: usize,
    /// HTTP sequence step to execute.
    pub action: ActionStepConfig,
    /// Polling deadline, when this is a JSON wait step.
    pub deadline: Option<Instant>,
}

/// Runtime state engine for every configured output.
#[derive(Debug)]
pub struct StateEngine {
    /// Runtime state of each configured output, in the order of configuration.
    pub states: Vec<RuntimeState>,
    /// Shared HTTP action configuration.
    pub http: HttpConfig,
}

/// The serial of a state is not an unsigned decimal integer.
#[derive(Clone, Copy, Debug, PartialEq, Eq, Structural)]
pub struct SerialError {
    /// Index of the first such state.
    pub index: usize,
}

/// Whether the states before number `count` all have a serial that can be read.
pub open spec fn serials_readable(states: Seq<StateConfig>, count: int) -> bool {
    forall|i: int| 0 <= i < count ==> unsigned_number(#[trigger] states[i].serial@) is Some
}

/// Whether a state is a new one with this configuration.
pub open spec fn starts_as(state: RuntimeState, config: StateConfig) -> bool {
    &&& same_state(state.config, config)
    &&& unsigned_number(config.serial@) == Some(state.serial)
    &&& state == fresh(state.config, state.serial)
}

/// The time until the next attempt, which is zero when none is scheduled.
pub open spec fn retry_delay(state: RuntimeState, now: Instant) -> Duration {
    match state.next_retry_at {
        Some(at) => Duration { nanos: nanos_since(at, now) as u128 },
        None => Duration { nanos: 0 },
    }
}

/// The step that the pending sequence is at, if one is pending.
pub open spec fn pending_step(state: RuntimeState) -> Option<usize> {
    match state.pending_target_state {
        Some(_) => Some(state.action_step_index),
        None => None,
    }
}

/// A state after one engine tick: a wait that reached its deadline is dealt with.
pub open spec fn advanced_state(
    state: RuntimeState,
    http: HttpConfig,
    now: Instant,
) -> RuntimeState {
    let (ticked, decision) = state.ticked(now);
    if decision is WaitTimedOut {
        ticked.timed_out(now, http.retry_initial, http.retry_max)
    } else {
        ticked
    }
}

/// The metrics after one engine tick of a state.
pub open spec fn advanced_metrics(
    metrics: MetricsView,
    state: RuntimeState,
    http: HttpConfig,
    now: Instant,
) -> MetricsView {
    let name = state.config.name@;
    let decision = state.ticked(now).1;
    let after = advanced_state(state, http, now);
    let aged = match state.latest_sample_at {
        Some(at) => metrics.input_aged(name, Duration { nanos: nanos_since(now, at) as u128 }),
        None => metrics,
    };
    let timed = match decision {
        TickDecision::WaitTimedOut { target, .. } => aged.wait_timed_out(name, target),
        _ => aged,
    };
    let moved = if state.applied_state != after.applied_state && after.applied_state is Some {
        timed.transitioned(name, after.applied_state->0)
    } else {
        timed
    };
    shown(moved, name, name, after, now)
}

/// The metrics after the progress and the status of a state are shown.
pub open spec fn shown(
    metrics: MetricsView,
    progress_name: Seq<char>,
    name: Seq<char>,
    state: RuntimeState,
    now: Instant,
) -> MetricsView {
    metrics.step_set(progress_name, pending_step(state)).retry_delay_set(
        progress_name,
        retry_delay(state, now),
    ).status_set(
        name,
        state.stale,
        state.ambiguous,
        state.desired_state,
        state.applied_state,
        state.pending_target_state,
        state.config.default_state,
    )
}

/// The action that an engine tick finds due in a state.
pub open spec fn due_action(state: RuntimeState, index: int, now: Instant) -> Option<DueAction> {
    let (after, decision) = state.ticked(now);
    match decision {
        TickDecision::Attempt { target, step_index } => {
            let action = after.steps(target)[step_index as int];
            Some(
                DueAction {
                    state_index: index as usize,
                    state_name: state.config.name,
                    target,
                    step_index,
                    action,
                    deadline: match action {
                        ActionStepConfig::WaitForJson { timeout, .. } => {
                            match after.step_started_at {
                                Some(started) => Some(later(started, timeout)),
                                None => None,
                            }
                        },
                        _ => None,
                    },
                },
            )
        },
        _ => None,
    }
}

/// The actions that an engine tick finds due, in the order of the states.
pub open spec fn due_actions(states: Seq<RuntimeState>, now: Instant) -> Seq<DueAction>
    decreases states.len(),
{
    if states.len() == 0 {
        Seq::empty()
    } else {
        let earlier = due_actions(states.drop_last(), now);
        match due_action(states.last(), states.len() - 1, now) {
            Some(action) => earlier.push(action),
            None => earlier,
        }
    }
}

/// The metrics after one engine tick of each state, in order.
pub open spec fn all_advanced_metrics(
    metrics: MetricsView,
    states: Seq<RuntimeState>,
    http: HttpConfig,
    now: Instant,
) -> MetricsView
    decreases states.len(),
{
    if states.len() == 0 {
        metrics
    } else {
        advanced_metrics(
            all_advanced_metrics(metrics, states.drop_last(), http, now),
            states.last(),
            http,
            now,
        )
    }
}

/// Whether `after` is what a state becomes when a sample is observed.
pub open spec fn observes(
    before: RuntimeState,
    after: RuntimeState,
    sample: Sample,
    now: Instant,
) -> bool {
    if sample.serial == before.serial {
        &&& after.latest_value is Some
        &&& is_widened(before.config.field.reading(sample), after.latest_value->0)
        &&& after == before.observed(after.latest_value->0, now)
    } else {
        after == before
    }
}

/// The metrics after states took in a sample, in order.
pub open spec fn observed_metrics(
    metrics: MetricsView,
    states: Seq<RuntimeState>,
    sample: Sample,
) -> MetricsView
    decreases states.len(),
{
    if states.len() == 0 {
        metrics
    } else {
        let earlier = observed_metrics(metrics, states.drop_last(), sample);
        let state = states.last();
        if sample.serial == state.serial {
            earlier.input_observed(
                state.config.name@,
                state.config.field.label(),
                state.latest_value->0,
                Duration { nanos: 0 },
            )
        } else {
            earlier
        }
    }
}

/// The HTTP status that an outcome came with.
pub open spec fn outcome_status(outcome: ActionOutcome) -> Option<u16> {
    match outcome {
        ActionOutcome::Success { status } => Some(status),
        ActionOutcome::Pending { status } => Some(status),
        ActionOutcome::Failure { status, .. } => status,
    }
}

/// Whether the wait that an action belongs to reached its deadline before the reply.
pub open spec fn replied_too_late(state: RuntimeState, action: DueAction, now: Instant) -> bool {
    state.awaits(action.target, action.step_index) && state.deadline_passed(now)
}

/// A state after an attempt of an action. A reply that comes after the deadline of a wait
/// is dealt with as a timeout.
pub open spec fn resolved_state(
    state: RuntimeState,
    action: DueAction,
    outcome: ActionOutcome,
    http: HttpConfig,
    now: Instant,
) -> RuntimeState {
    if replied_too_late(state, action, now) {
        state.timed_out(now, http.retry_initial, http.retry_max)
    } else if state.awaits(action.target, action.step_index) {
        state.recorded(outcome, now, http.retry_initial, http.retry_max)
    } else {
        state
    }
}

/// The metrics after an attempt of an action.
pub open spec fn resolved_metrics(
    metrics: MetricsView,
    state: RuntimeState,
    action: DueAction,
    outcome: ActionOutcome,
    http: HttpConfig,
    now: Instant,
) -> MetricsView {
    let name = action.state_name@;
    let after = resolved_state(state, action, outcome, http, now);
    let attempted = metrics.attempted(
        name,
        action.target,
        !(outcome is Failure),
        outcome_status(outcome),
    );
    let timed = if replied_too_late(state, action, now) {
        attempted.wait_timed_out(name, action.target)
    } else {
        attempted
    };
    let moved = if state.applied_state != after.applied_state {
        timed.transitioned(name, action.target)
    } else {
        timed
    };
    shown(moved, name, state.config.name@, after, now)
}

impl StateEngine {
    /// Whether all spans are valid and every state is.
    pub open spec fn valid(self) -> bool {
        &&& self.http.valid()
        &&& forall|i: int| 0 <= i < self.states.len() ==> (#[trigger] self.states[i]).valid()
    }

    /// Builds runtime state from static configuration.
    ///
    /// # Errors
    ///
    /// Returns an error if any configured state serial is not decimal `u64`.
    pub fn new(config: &Config) -> (result: Result<Self, SerialError>)
        requires
            config.valid(),
        ensures
            result is Ok <==> serials_readable(config.states@, config.states.len() as int),
            result matches Ok(engine) ==> {
                &&& engine.valid()
                &&& engine.http == config.http
                &&& engine.states.len() == config.states.len()
                &&& forall|i: int|
                    0 <= i < engine.states.len() ==> starts_as(
                        #[trigger] engine.states[i],
                        config.states[i],
                    )
            },
            result matches Err(error) ==> {
                &&& error.index < config.states.len()
                &&& serials_readable(config.states@, error.index as int)
                &&& unsigned_number(config.states[error.index as int].serial@) is None
            },
    {
        let mut states: Vec<RuntimeState> = Vec::new();
        let mut index: usize = 0;
        while index < config.states.len()
            invariant
                config.valid(),
                index <= config.states.len(),
                states.len() == index,
                serials_readable(config.states@, index as int),
                forall|i: int| 0 <= i < index ==> (#[trigger] states[i]).valid(),
                forall|i: int|
                    0 <= i < index ==> starts_as(#[trigger] states[i], config.states[i]),
            decreases config.states.len() - index,
        {
            match parse_unsigned(config.states[index].serial.as_str()) {
                Some(serial) => {
                    let copy = config.states[index].clone();
                    proof {
                        lemma_same_state_valid(copy, config.states[index as int]);
                    }
                    states.push(RuntimeState::new(copy, serial));
                },
                None => {
                    return Err(SerialError { index });
                },
            }
            index = index + 1;
        }
        Ok(StateEngine { states, http: config.http })
    }

    /// Observes one sample in every configured state.
    pub fn observe_sample(&mut self, sample: &Sample, metrics: &mut Metrics, now: Instant)
        requires
            old(self).valid(),
        ensures
            final(self).valid(),
            final(self).http == old(self).http,
            final(self).states.len() == old(self).states.len(),
            forall|i: int|
                0 <= i < final(self).states.len() ==> observes(
                    old(self).states[i],
                    #[trigger] final(self).states[i],
                    *sample,
                    now,
                ),
            final(metrics)@ == observed_metrics(old(metrics)@, final(self).states@, *sample),
    {
        let mut index: usize = 0;
        while index < self.states.len()
            invariant
                self.valid(),
                self.http == old(self).http,
                index <= self.states.len(),
                self.states.len() == old(self).states.len(),
                forall|i: int|
                    0 <= i < index ==> observes(
                        old(self).states[i],
                        #[trigger] self.states[i],
                        *sample,
                        now,
                    ),
                forall|i: int|
                    index <= i < self.states.len() ==> #[trigger] self.states[i] == old(
                        self,
                    ).states[i],
                metrics@ == observed_metrics(
                    old(metrics)@,
                    self.states@.take(index as int),
                    *sample,
                ),
            decreases self.states.len() - index,
        {
            let ghost earlier = self.states@.take(index as int);
            self.states[index].observe_sample(sample, now);
            proof {
                let through = self.states@.take(index + 1);
                assert(through.drop_last() =~= earlier);
                assert(through.last() == self.states[index as int]);
            }
            let state = &self.states[index];
            if sample.serial == state.serial {
                if let Some(value) = state.latest_value {
                    metrics.observe_state_input(
                        state.config.name.as_str(),
                        state.config.field.as_str(),
                        value,
                        Duration::zero(),
                    );
                }
            }
            index = index + 1;
        }
        assert(self.states@.take(self.states.len() as int) =~= self.states@);
    }

    /// Advances all states and returns due actions without performing I/O.
    pub fn collect_due_actions(&mut self, metrics: &mut Metrics, now: Instant) -> (actions: Vec<
        DueAction,
    >)
        requires
            old(self).valid(),
            now.current(),
        ensures
            final(self).valid(),
            final(self).http == old(self).http,
            final(self).states.len() == old(self).states.len(),
            forall|i: int|
                0 <= i < final(self).states.len() ==> #[trigger] final(self).states[i]
                    == advanced_state(old(self).states[i], old(self).http, now),
            actions@ == due_actions(old(self).states@, now),
            final(metrics)@ == all_advanced_metrics(
                old(metrics)@,
                old(self).states@,
                old(self).http,
                now,
            ),
    {
        let mut actions: Vec<DueAction> = Vec::new();
        let mut index: usize = 0;
        while index < self.states.len()
            invariant
                self.valid(),
                now.current(),
                self.http == old(self).http,
                index <= self.states.len(),
                self.states.len() == old(self).states.len(),
                forall|i: int|
                    0 <= i < index ==> #[trigger] self.states[i] == advanced_state(
                        old(self).states[i],
                        old(self).http,
                        now,
                    ),
                forall|i: int|
                    index <= i < self.states.len() ==> #[trigger] self.states[i] == old(
                        self,
                    ).states[i],
                actions@ == due_actions(old(self).states@.take(index as int), now),
                metrics@ == all_advanced_metrics(
                    old(metrics)@,
                    old(self).states@.take(index as int),
                    old(self).http,
                    now,
                ),
            decreases self.states.len() - index,
        {
            proof {
                let through = old(self).states@.take(index + 1);
                assert(through.drop_last() =~= old(self).states@.take(index as int));
                assert(through.last() == self.states[index as int]);
            }
            let http: HttpConfig = self.http;
            match advance_one(&mut self.states[index], index, http, metrics, now) {
                Some(action) => {
                    actions.push(action);
                },
                None => {},
            }
            index = index + 1;
        }
        assert(old(self).states@.take(self.states.len() as int) =~= old(self).states@);
        actions
    }

    /// Records an action attempt result.
    pub fn record_action_result(
        &mut self,
        action: &DueAction,
        outcome: ActionOutcome,
        metrics: &mut Metrics,
        now: Instant,
    )
        requires
            old(self).valid(),
            now.current(),
        ensures
            final(self).valid(),
            final(self).http == old(self).http,
            action.state_index >= old(self).states.len() ==> {
                &&& *final(self) == *old(self)
                &&& final(metrics)@ == old(metrics)@
            },
            action.state_index < old(self).states.len() ==> {
                let state = old(self).states[action.state_index as int];
                &&& final(self).states@ == old(self).states@.update(
                    action.state_index as int,
                    resolved_state(state, *action, outcome, old(self).http, now),
                )
                &&& final(metrics)@ == resolved_metrics(
                    old(metrics)@,
                    state,
                    *action,
                    outcome,
                    old(self).http,
                    now,
                )
            },
    {
        let index: usize = action.state_index;
        if index >= self.states.len() {
            return;
        }
        let http: HttpConfig = self.http;
        resolve_one(&mut self.states[index], action, outcome, http, metrics, now);
        assert(self.states@ =~= old(self).states@.update(
            index as int,
            self.states[index as int],
        ));
    }
}

/// A transition is counted when its target is applied, and only then: a failed attempt or a
/// tick that applies nothing leaves the counts as they are.
pub proof fn law_transitions_are_counted_when_applied(
    metrics: MetricsView,
    state: RuntimeState,
    action: DueAction,
    outcome: ActionOutcome,
    http: HttpConfig,
    now: Instant,
)
    ensures
        ({
            let after = resolved_state(state, action, outcome, http, now);
            let shown = resolved_metrics(metrics, state, action, outcome, http, now);
            shown.state_transitions == if after.applied_state == state.applied_state {
                metrics.state_transitions
            } else {
                counted(metrics.state_transitions, target_labels(action.state_name@, action.target))
            }
        }),
        ({
            let after = advanced_state(state, http, now);
            let shown = advanced_metrics(metrics, state, http, now);
            shown.state_transitions == if after.applied_state == state.applied_state
                || after.applied_state is None {
                metrics.state_transitions
            } else {
                counted(
                    metrics.state_transitions,
                    target_labels(state.config.name@, after.applied_state->0),
                )
            }
        }),
        outcome is Failure && !replied_too_late(state, action, now) ==> resolved_metrics(
            metrics,
            state,
            action,
            outcome,
            http,
            now,
        ).state_transitions == metrics.state_transitions,
{
}

/// The engine keeps its states coherent: those it starts with are, and a sample, a tick and
/// the result of an action leave them so.
pub proof fn law_engine_keeps_states_coherent(
    config: StateConfig,
    state: RuntimeState,
    after: RuntimeState,
    sample: Sample,
    action: DueAction,
    outcome: ActionOutcome,
    http: HttpConfig,
    now: Instant,
)
    ensures
        starts_as(state, config) ==> state.coherent(),
        state.coherent() && observes(state, after, sample, now) ==> after.coherent(),
        state.coherent() ==> advanced_state(state, http, now).coherent(),
        state.coherent() ==> resolved_state(state, action, outcome, http, now).coherent(),
{
    if state.coherent() {
        state.lemma_ticked_is_coherent(now);
    }
}

/// A JSON wait that is due has a deadline.
pub proof fn law_due_wait_has_a_deadline(state: RuntimeState, index: int, now: Instant)
    requires
        state.coherent(),
    ensures
        due_action(state, index, now) matches Some(due) ==> due.action is WaitForJson
            ==> due.deadline is Some,
{
    state.lemma_ticked_is_coherent(now);
    law_decision_is_about_the_current_step(state, now);
}

/// Two states that are configured alike have valid spans alike.
proof fn lemma_same_state_valid(a: StateConfig, b: StateConfig)
    requires
        same_state(a, b),
        b.valid(),
    ensures
        a.valid(),
{
    assert(a.on.steps() =~= b.on.steps());
    assert(a.off.steps() =~= b.off.steps());
}

/// Ticks one state, reports it and returns the action that is due.
fn advance_one(
    state: &mut RuntimeState,
    index: usize,
    http: HttpConfig,
    metrics: &mut Metrics,
    now: Instant,
) -> (due: Option<DueAction>)
    requires
        old(state).valid(),
        http.valid(),
        now.current(),
    ensures
        final(state).valid(),
        *final(state) == advanced_state(*old(state), http, now),
        due == due_action(*old(state), index as int, now),
        final(metrics)@ == advanced_metrics(old(metrics)@, *old(state), http, now),
{
    proof {
        law_decision_is_about_the_current_step(*state, now);
        crate::state::properties::lemma_ticked(*state, now);
    }
    let previous_applied: Option<BinaryState> = state.applied_state;
    let decision: TickDecision = state.tick(now, http.retry_initial, http.retry_max);

    if let Some(sample_at) = state.latest_sample_at {
        metrics.set_state_input_age(
            state.config.name.as_str(),
            now.saturating_duration_since(sample_at),
        );
    }
    if let TickDecision::WaitTimedOut { target, step_index } = decision {
        metrics.action_wait_timeout(state.config.name.as_str(), target);
        state.record_wait_timeout(target, step_index, now, http.retry_initial, http.retry_max);
    }
    if let Some(applied) = state.applied_state {
        if !was_applied(previous_applied, applied) {
            metrics.state_transition(state.config.name.as_str(), applied);
        }
    }
    show(metrics, state.config.name.as_str(), state, now);

    match decision {
        TickDecision::Attempt { target, step_index } => {
            let action = match state.transition(target).action(step_index) {
                Some(action) => action,
                None => {
                    return None;
                },
            };
            let deadline: Option<Instant> = match &action {
                ActionStepConfig::WaitForJson { timeout, .. } => match state.step_started_at {
                    Some(started) => Some(started.plus(*timeout)),
                    None => None,
                },
                _ => None,
            };
            Some(
                DueAction {
                    state_index: index,
                    state_name: state.config.name.clone(),
                    target,
                    step_index,
                    action,
                    deadline,
                },
            )
        },
        _ => None,
    }
}

/// Records an attempt in one state and reports it.
fn resolve_one(
    state: &mut RuntimeState,
    action: &DueAction,
    outcome: ActionOutcome,
    http: HttpConfig,
    metrics: &mut Metrics,
    now: Instant,
)
    requires
        old(state).valid(),
        http.valid(),
        now.current(),
    ensures
        final(state).valid(),
        *final(state) == resolved_state(*old(state), *action, outcome, http, now),
        final(metrics)@ == resolved_metrics(
            old(metrics)@,
            *old(state),
            *action,
            outcome,
            http,
            now,
        ),
{
    let previous_applied: Option<BinaryState> = state.applied_state;
    let name: &str = action.state_name.as_str();
    let (success, status): (bool, Option<u16>) = match &outcome {
        ActionOutcome::Success { status } => (true, Some(*status)),
        ActionOutcome::Pending { status } => (true, Some(*status)),
        ActionOutcome::Failure { status, .. } => (false, *status),
    };
    metrics.http_attempt(name, action.target, success, status);
    if state.wait_timed_out(action.target, action.step_index, now) {
        metrics.action_wait_timeout(name, action.target);
        state.record_wait_timeout(
            action.target,
            action.step_index,
            now,
            http.retry_initial,
            http.retry_max,
        );
    } else {
        state.record_action_result(
            action.target,
            action.step_index,
            outcome,
            now,
            http.retry_initial,
            http.retry_max,
        );
    }
    if let Some(applied) = state.applied_state {
        if !was_applied(previous_applied, applied) {
            metrics.state_transition(name, action.target);
        }
    }
    show(metrics, name, state, now);
}

/// Whether a state was the applied one before.
fn was_applied(previous: Option<BinaryState>, applied: BinaryState) -> (answer: bool)
    ensures
        answer == (previous == Some(applied)),
{
    match previous {
        Some(previous) => previous == applied,
        None => false,
    }
}

/// Shows the progress and the status of a state.
fn show(metrics: &mut Metrics, progress_name: &str, state: &RuntimeState, now: Instant)
    ensures
        final(metrics)@ == shown(
            old(metrics)@,
            progress_name@,
            state.config.name@,
            *state,
            now,
        ),
{
    let step: Option<usize> = match state.pending_target_state {
        Some(_) => Some(state.action_step_index),
        None => None,
    };
    metrics.set_action_sequence_step(progress_name, step);
    let delay: Duration = match state.next_retry_at {
        Some(retry_at) => retry_at.saturating_duration_since(now),
        None => Duration::zero(),
    };
    metrics.set_http_retry_delay(progress_name, delay);
    metrics.set_state_status(
        state.config.name.as_str(),
        state.stale,
        state.ambiguous,
        state.desired_state,
        state.applied_state,
        state.pending_target_state,
        state.config.default_state,
    );
}

} // verus!
