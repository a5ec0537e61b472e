//! Runtime state machine for one configured binary output.

use vstd::arithmetic::power2::{lemma_pow2_pos, lemma_pow2_unfold, pow2};
use vstd::prelude::*;

use crate::clock::{later, nanos_since, Duration, Instant, MAX_NANOS};
use crate::config::{
    ActionStepConfig, BinaryState, StateConfig, TransitionConfig, WaitTimeoutPolicy,
};
use crate::float::{is_widened, Double};
use crate::sample::Sample;
use crate::state::condition;
use crate::state::condition::satisfies;

verus! {

/// In-memory state for one configured threshold output.
#[derive(Debug)]
pub struct RuntimeState {
    /// Static state configuration.
    pub config: StateConfig,
    /// Parsed Thornwave device serial number.
    pub serial: u64,
    /// Latest matching measurement value.
    pub latest_value: Option<Double>,
    /// Time when the latest matching sample was observed.
    pub latest_sample_at: Option<Instant>,
    /// Current desired output state.
    pub desired_state: Option<BinaryState>,
    /// Last successfully applied output state.
    pub applied_state: Option<BinaryState>,
    /// Target currently awaiting action success.
    pub pending_target_state: Option<BinaryState>,
    /// Start time for the current continuous ON condition.
    pub on_condition_started_at: Option<Instant>,
    /// Start time for the current continuous OFF condition.
    pub off_condition_started_at: Option<Instant>,
    /// Number of consecutive failed attempts for the pending target.
    pub retry_attempt: u32,
    /// Current step within the pending target sequence.
    pub action_step_index: usize,
    /// Time when the current sequence step began.
    pub step_started_at: Option<Instant>,
    /// Next time a retry may be attempted.
    pub next_retry_at: Option<Instant>,
    /// Earliest time when the opposite transition may begin qualification.
    pub hold_until: Option<Instant>,
    /// Last HTTP status returned by an action attempt.
    pub last_http_status: Option<u16>,
    /// Last HTTP error returned by an action attempt.
    pub last_http_error: Option<String>,
    /// Last successful action time.
    pub last_success_at: Option<Instant>,
    /// Whether the latest sample is stale.
    pub stale: bool,
    /// Whether ON and OFF conditions are both satisfied.
    pub ambiguous: bool,
}

/// Result of one state-machine tick.
#[derive(Clone, Copy, Debug, PartialEq, Eq, Structural)]
pub enum TickDecision {
    /// No action should be attempted now.
    Idle,
    /// Attempt to apply the target state.
    Attempt {
        /// Sequence target.
        target: BinaryState,
        /// Zero-based sequence step.
        step_index: usize,
    },
    /// A JSON wait reached its configured deadline.
    WaitTimedOut {
        /// Sequence target.
        target: BinaryState,
        /// Zero-based sequence step.
        step_index: usize,
    },
}

/// Outcome of an attempted action.
#[allow(inconsistent_fields)]
#[derive(Debug, PartialEq, Eq)]
pub enum ActionOutcome {
    /// Action succeeded with an HTTP status.
    Success {
        /// HTTP status.
        status: u16,
    },
    /// Action failed with optional HTTP status and transport error.
    Failure {
        /// HTTP status, when a response was received.
        status: Option<u16>,
        /// Transport or request error, when available.
        error: Option<String>,
    },
    /// A polling request succeeded but its JSON condition was not yet satisfied.
    Pending {
        /// HTTP status.
        status: u16,
    },
}

/// A timer after one look at its condition: it starts when the condition is first
/// met and is cleared when it is not.
pub open spec fn timer_after(timer: Option<Instant>, matched: bool, now: Instant) -> Option<
    Instant,
> {
    if matched {
        Some(timer.unwrap_or(now))
    } else {
        None
    }
}

/// Whether a condition is met and its timer has run for the required time.
pub open spec fn timer_ripe(
    timer: Option<Instant>,
    matched: bool,
    now: Instant,
    duration: Duration,
) -> bool {
    matched && timer is Some && nanos_since(now, timer->0) >= duration.nanos
}

/// Nanoseconds to wait after failed attempt number `attempt`, counted from zero: the
/// initial delay, doubled each time, up to the maximum.
pub open spec fn backoff_nanos(attempt: nat, initial: int, max: int) -> int {
    if initial * pow2(attempt) <= max {
        initial * pow2(attempt)
    } else {
        max
    }
}

/// The state of an output of which nothing is known yet.
pub open spec fn fresh(config: StateConfig, serial: u64) -> RuntimeState {
    RuntimeState {
        config,
        serial,
        latest_value: None,
        latest_sample_at: None,
        desired_state: None,
        applied_state: None,
        pending_target_state: None,
        on_condition_started_at: None,
        off_condition_started_at: None,
        retry_attempt: 0,
        action_step_index: 0,
        step_started_at: None,
        next_retry_at: None,
        hold_until: None,
        last_http_status: None,
        last_http_error: None,
        last_success_at: None,
        stale: false,
        ambiguous: false,
    }
}

impl RuntimeState {
    /// The configured transition for a target state.
    pub open spec fn transition_to(self, target: BinaryState) -> TransitionConfig {
        match target {
            BinaryState::On => self.config.on,
            BinaryState::Off => self.config.off,
        }
    }

    /// The steps that lead to a target state.
    pub open spec fn steps(self, target: BinaryState) -> Seq<ActionStepConfig> {
        self.transition_to(target).steps()
    }

    /// The step that the pending sequence is at.
    pub open spec fn step(self) -> Option<ActionStepConfig> {
        match self.pending_target_state {
            Some(target) => if self.action_step_index < self.steps(target).len() {
                Some(self.steps(target)[self.action_step_index as int])
            } else {
                None
            },
            None => None,
        }
    }

    /// Whether all configured spans are valid and the step index lies within the
    /// pending sequence.
    pub open spec fn valid(self) -> bool {
        &&& self.config.valid()
        &&& self.action_step_index == 0 || (self.pending_target_state is Some
            && self.action_step_index < self.steps(self.pending_target_state->0).len())
        &&& self.step_started_at is Some ==> self.step_started_at->0.nanos <= 2 * MAX_NANOS
    }

    /// Whether a pending sequence leads to another state than the applied one, and it is
    /// known since when its current step is under way.
    pub open spec fn coherent(self) -> bool {
        self.pending_target_state is Some ==> {
            &&& self.pending_target_state != self.applied_state
            &&& self.step_started_at is Some
        }
    }

    /// Time when the current step began, which is now if it begins now.
    pub open spec fn step_start(self, now: Instant) -> Instant {
        self.step_started_at.unwrap_or(now)
    }

    /// Whether the latest sample is too old at `now`.
    pub open spec fn stale_at(self, now: Instant) -> bool {
        match self.latest_sample_at {
            Some(at) => nanos_since(now, at) > self.config.stale_after.nanos,
            None => self.stale,
        }
    }

    /// Whether the last applied transition still holds off the next one.
    pub open spec fn held_at(self, now: Instant) -> bool {
        self.hold_until is Some && now.nanos < self.hold_until->0.nanos
    }

    /// The state after a new measurement. A measurement that breaks a condition
    /// clears its timer.
    pub open spec fn observed(self, value: Double, now: Instant) -> RuntimeState {
        RuntimeState {
            latest_value: Some(value),
            latest_sample_at: Some(now),
            on_condition_started_at: if satisfies(self.config.on, value) {
                self.on_condition_started_at
            } else {
                None
            },
            off_condition_started_at: if satisfies(self.config.off, value) {
                self.off_condition_started_at
            } else {
                None
            },
            ..self
        }
    }

    /// The state after the current step is done: the next step, or the target
    /// applied if there is none.
    pub open spec fn advanced(self, target: BinaryState, now: Instant) -> RuntimeState {
        if self.action_step_index + 1 >= self.steps(target).len() {
            RuntimeState {
                applied_state: Some(target),
                desired_state: Some(target),
                pending_target_state: None,
                on_condition_started_at: None,
                off_condition_started_at: None,
                retry_attempt: 0,
                action_step_index: 0,
                step_started_at: None,
                next_retry_at: None,
                hold_until: Some(later(now, self.transition_to(target).hold_for)),
                ..self
            }
        } else {
            RuntimeState {
                retry_attempt: 0,
                action_step_index: (self.action_step_index + 1) as usize,
                step_started_at: Some(now),
                next_retry_at: None,
                ..self
            }
        }
    }

    /// Steps that are left in the pending sequence.
    pub open spec fn steps_left(self) -> nat {
        match self.pending_target_state {
            Some(target) => if self.action_step_index < self.steps(target).len() {
                (self.steps(target).len() - self.action_step_index) as nat
            } else {
                0
            },
            None => 0,
        }
    }

    /// The state and the decision when the pending sequence is looked at: delays that
    /// are over are passed, and the first step that is not such a delay decides.
    pub open spec fn stepped(self, now: Instant) -> (RuntimeState, TickDecision)
        decreases self.steps_left(),
    {
        let target = self.pending_target_state->0;
        let elapsed = nanos_since(now, self.step_start(now));
        match self.step() {
            None => (self, TickDecision::Idle),
            Some(ActionStepConfig::Delay { duration }) => {
                let begun = RuntimeState { step_started_at: Some(self.step_start(now)), ..self };
                if elapsed >= duration.nanos {
                    proof {
                        self.lemma_step_count_fits(target);
                    }
                    begun.advanced(target, now).stepped(now)
                } else {
                    (begun, TickDecision::Idle)
                }
            },
            Some(step) => if step is WaitForJson && elapsed >= step->timeout.nanos {
                (
                    self,
                    TickDecision::WaitTimedOut { target, step_index: self.action_step_index },
                )
            } else if self.next_retry_at is None || now.nanos >= self.next_retry_at->0.nanos {
                (self, TickDecision::Attempt { target, step_index: self.action_step_index })
            } else {
                (self, TickDecision::Idle)
            },
        }
    }

    /// The number of steps fits a machine word.
    pub proof fn lemma_step_count_fits(self, target: BinaryState)
        ensures
            self.steps(target).len() <= usize::MAX,
    {
        assert(self.transition_to(target).actions.len() <= usize::MAX);
    }

    proof fn lemma_stepped_is_coherent(self, now: Instant)
        requires
            self.coherent(),
        ensures
            self.stepped(now).0.coherent(),
        decreases self.steps_left(),
    {
        match self.step() {
            Some(ActionStepConfig::Delay { duration }) => {
                let target = self.pending_target_state->0;
                let begun = RuntimeState { step_started_at: Some(self.step_start(now)), ..self };
                if nanos_since(now, self.step_start(now)) >= duration.nanos {
                    self.lemma_step_count_fits(target);
                    begun.advanced(target, now).lemma_stepped_is_coherent(now);
                }
            },
            _ => {},
        }
    }

    /// A tick keeps a state coherent.
    pub proof fn lemma_ticked_is_coherent(self, now: Instant)
        requires
            self.coherent(),
        ensures
            self.ticked(now).0.coherent(),
    {
        let aged = self.aged(now);
        let qualified = aged.qualified(self.latest_value->0, now);
        if self.pending_target_state is Some {
            aged.lemma_stepped_is_coherent(now);
        } else {
            if aged.desired_state is Some && aged.desired_state != aged.applied_state {
                aged.started(aged.desired_state->0, now).lemma_stepped_is_coherent(now);
            }
            if qualified.desired_state is Some && qualified.desired_state
                != qualified.applied_state {
                qualified.started(qualified.desired_state->0, now).lemma_stepped_is_coherent(now);
            }
        }
    }

    /// The state when the sequence that leads to `target` begins.
    pub open spec fn started(self, target: BinaryState, now: Instant) -> RuntimeState {
        RuntimeState {
            pending_target_state: Some(target),
            retry_attempt: 0,
            action_step_index: 0,
            step_started_at: Some(now),
            next_retry_at: None,
            ..self
        }
    }

    /// The state and the decision once it is known what is desired: the pending
    /// sequence goes on, or one begins if the desired state is not the applied one.
    pub open spec fn due(self, now: Instant) -> (RuntimeState, TickDecision) {
        if self.pending_target_state is Some {
            self.stepped(now)
        } else if self.desired_state is None || self.desired_state == self.applied_state {
            (self, TickDecision::Idle)
        } else {
            self.started(self.desired_state->0, now).stepped(now)
        }
    }

    /// The state after its timers have looked at a fresh value.
    pub open spec fn qualified(self, value: Double, now: Instant) -> RuntimeState {
        let on = satisfies(self.config.on, value);
        let off = satisfies(self.config.off, value);
        let on_timer = timer_after(self.on_condition_started_at, on, now);
        let off_timer = timer_after(self.off_condition_started_at, off, now);
        let on_ripe = timer_ripe(on_timer, on, now, self.config.on.duration);
        let off_ripe = timer_ripe(off_timer, off, now, self.config.off.duration);
        RuntimeState {
            on_condition_started_at: on_timer,
            off_condition_started_at: off_timer,
            hold_until: None,
            ambiguous: on_ripe && off_ripe,
            desired_state: if on_ripe && off_ripe {
                self.desired_state
            } else if on_ripe {
                Some(BinaryState::On)
            } else if off_ripe {
                Some(BinaryState::Off)
            } else if !on && !off && self.applied_state is None && self.desired_state is None {
                Some(self.config.default_state)
            } else {
                self.desired_state
            },
            ..self
        }
    }

    /// The state once the age of its input is known. Nothing is desired on the
    /// strength of a stale input.
    pub open spec fn aged(self, now: Instant) -> RuntimeState {
        RuntimeState {
            stale: self.stale_at(now),
            desired_state: if self.latest_sample_at is Some && self.stale_at(now) {
                None
            } else {
                self.desired_state
            },
            ..self
        }
    }

    /// The state and the decision of one tick.
    pub open spec fn ticked(self, now: Instant) -> (RuntimeState, TickDecision) {
        let aged = self.aged(now);
        if self.latest_value is None || self.latest_sample_at is None
            || self.pending_target_state is Some {
            aged.due(now)
        } else if aged.stale {
            (aged, TickDecision::Idle)
        } else if self.held_at(now) {
            (
                RuntimeState {
                    on_condition_started_at: None,
                    off_condition_started_at: None,
                    ..aged
                },
                TickDecision::Idle,
            )
        } else {
            let qualified = aged.qualified(self.latest_value->0, now);
            if qualified.ambiguous {
                (qualified, TickDecision::Idle)
            } else {
                qualified.due(now)
            }
        }
    }

    /// Whether a report on a step of a sequence is about the current step.
    pub open spec fn awaits(self, target: BinaryState, step_index: usize) -> bool {
        self.pending_target_state == Some(target) && self.action_step_index == step_index
    }

    /// Time between two polls of the current step.
    pub open spec fn poll_interval(self) -> Duration {
        match self.step() {
            Some(ActionStepConfig::WaitForJson { poll_every, .. }) => poll_every,
            _ => Duration { nanos: 0 },
        }
    }

    /// Time when the current step may be tried again after one more failure.
    pub open spec fn backed_off(self, now: Instant, initial: Duration, max: Duration) -> Instant {
        Instant {
            nanos: (now.nanos + backoff_nanos(
                self.retry_attempt as nat,
                initial.nanos as int,
                max.nanos as int,
            )) as u128,
        }
    }

    /// Number of failed attempts after one more.
    pub open spec fn one_more_attempt(self) -> u32 {
        if self.retry_attempt == u32::MAX {
            u32::MAX
        } else {
            (self.retry_attempt + 1) as u32
        }
    }

    /// The state after the current step was tried, with this outcome.
    pub open spec fn recorded(
        self,
        outcome: ActionOutcome,
        now: Instant,
        initial: Duration,
        max: Duration,
    ) -> RuntimeState {
        match outcome {
            ActionOutcome::Success { status } => RuntimeState {
                last_http_status: Some(status),
                last_http_error: None,
                last_success_at: Some(now),
                ..self.advanced(self.pending_target_state->0, now)
            },
            ActionOutcome::Failure { status, error } => {
                let polling = self.step() is Some && self.step()->0 is WaitForJson;
                RuntimeState {
                    last_http_status: status,
                    last_http_error: error,
                    next_retry_at: if polling {
                        Some(later(now, self.poll_interval()))
                    } else {
                        Some(self.backed_off(now, initial, max))
                    },
                    retry_attempt: if polling {
                        self.retry_attempt
                    } else {
                        self.one_more_attempt()
                    },
                    ..self
                }
            },
            ActionOutcome::Pending { status } => RuntimeState {
                last_http_status: Some(status),
                last_http_error: None,
                next_retry_at: Some(later(now, self.poll_interval())),
                ..self
            },
        }
    }

    /// The state after the current JSON wait has reached its deadline.
    pub open spec fn timed_out(
        self,
        now: Instant,
        initial: Duration,
        max: Duration,
    ) -> RuntimeState {
        match self.step() {
            Some(ActionStepConfig::WaitForJson { on_timeout, .. }) => match on_timeout {
                WaitTimeoutPolicy::Continue => self.advanced(self.pending_target_state->0, now),
                WaitTimeoutPolicy::Retry => RuntimeState {
                    retry_attempt: self.one_more_attempt(),
                    step_started_at: Some(self.backed_off(now, initial, max)),
                    next_retry_at: Some(self.backed_off(now, initial, max)),
                    ..self
                },
            },
            _ => self,
        }
    }

    /// Whether the current step is a JSON wait that has reached its deadline.
    pub open spec fn deadline_passed(self, now: Instant) -> bool {
        match self.step() {
            Some(ActionStepConfig::WaitForJson { timeout, .. }) => nanos_since(
                now,
                self.step_start(now),
            ) >= timeout.nanos,
            _ => false,
        }
    }

    /// Creates empty runtime state for one configured output.
    pub fn new(config: StateConfig, serial: u64) -> (state: Self)
        requires
            config.valid(),
        ensures
            state == fresh(config, serial),
            state.valid(),
            state.coherent(),
    {
        RuntimeState {
            config,
            serial,
            latest_value: None,
            latest_sample_at: None,
            desired_state: None,
            applied_state: None,
            pending_target_state: None,
            on_condition_started_at: None,
            off_condition_started_at: None,
            retry_attempt: 0,
            action_step_index: 0,
            step_started_at: None,
            next_retry_at: None,
            hold_until: None,
            last_http_status: None,
            last_http_error: None,
            last_success_at: None,
            stale: false,
            ambiguous: false,
        }
    }

    /// Observes a sample if its serial matches this state.
    pub fn observe_sample(&mut self, sample: &Sample, now: Instant)
        ensures
            sample.serial != old(self).serial ==> *final(self) == *old(self),
            sample.serial == old(self).serial ==> {
                &&& final(self).latest_value is Some
                &&& is_widened(
                    old(self).config.field.reading(*sample),
                    final(self).latest_value->0,
                )
                &&& *final(self) == old(self).observed(final(self).latest_value->0, now)
            },
            old(self).valid() ==> final(self).valid(),
            old(self).coherent() ==> final(self).coherent(),
    {
        if sample.serial == self.serial {
            let value: Double = self.config.field.value(sample);
            self.latest_value = Some(value);
            self.latest_sample_at = Some(now);
            if !condition::matches(self.config.on.op, value, self.config.on.value) {
                self.on_condition_started_at = None;
            }
            if !condition::matches(self.config.off.op, value, self.config.off.value) {
                self.off_condition_started_at = None;
            }
        }
    }

    /// Advances threshold timers and returns any due action attempt.
    pub fn tick(&mut self, now: Instant, retry_initial: Duration, retry_max: Duration) -> (decision:
        TickDecision)
        requires
            old(self).valid(),
            now.current(),
        ensures
            (*final(self), decision) == old(self).ticked(now),
            final(self).valid(),
            old(self).coherent() ==> final(self).coherent(),
    {
        proof {
            if old(self).coherent() {
                old(self).lemma_ticked_is_coherent(now);
            }
        }
        let _ = (retry_initial, retry_max);

        if let Some(sample_at) = self.latest_sample_at {
            self.stale = now.saturating_duration_since(sample_at).nanos
                > self.config.stale_after.nanos;
            if self.stale {
                self.desired_state = None;
            }
        }
        let value: Double = match (self.latest_value, self.latest_sample_at) {
            (Some(value), Some(_)) => value,
            _ => {
                return self.due_attempt(now);
            },
        };
        if self.pending_target_state.is_some() {
            return self.due_attempt(now);
        }
        if self.stale {
            return TickDecision::Idle;
        }
        if let Some(until) = self.hold_until {
            if now.nanos < until.nanos {
                self.on_condition_started_at = None;
                self.off_condition_started_at = None;
                return TickDecision::Idle;
            }
        }
        self.hold_until = None;

        let on_matches: bool = condition::matches(self.config.on.op, value, self.config.on.value);
        let off_matches: bool = condition::matches(
            self.config.off.op,
            value,
            self.config.off.value,
        );
        self.on_condition_started_at = update_timer(self.on_condition_started_at, on_matches, now);
        self.off_condition_started_at =
        update_timer(self.off_condition_started_at, off_matches, now);

        let on_satisfied: bool = timer_satisfied(
            self.on_condition_started_at,
            on_matches,
            now,
            self.config.on.duration,
        );
        let off_satisfied: bool = timer_satisfied(
            self.off_condition_started_at,
            off_matches,
            now,
            self.config.off.duration,
        );
        self.ambiguous = on_satisfied && off_satisfied;
        if self.ambiguous {
            return TickDecision::Idle;
        }
        if on_satisfied {
            self.desired_state = Some(BinaryState::On);
        } else if off_satisfied {
            self.desired_state = Some(BinaryState::Off);
        } else if !on_matches && !off_matches && self.applied_state.is_none()
            && self.desired_state.is_none() {
            self.desired_state = Some(self.config.default_state);
        }
        self.due_attempt(now)
    }

    /// Records the result of an attempted action.
    pub fn record_action_result(
        &mut self,
        target: BinaryState,
        step_index: usize,
        outcome: ActionOutcome,
        now: Instant,
        retry_initial: Duration,
        retry_max: Duration,
    )
        requires
            old(self).valid(),
            now.current(),
            retry_initial.valid(),
            retry_max.valid(),
        ensures
            *final(self) == (if old(self).awaits(target, step_index) {
                old(self).recorded(outcome, now, retry_initial, retry_max)
            } else {
                *old(self)
            }),
            final(self).valid(),
            old(self).coherent() ==> final(self).coherent(),
    {
        if !self.is_awaiting(target, step_index) {
            return;
        }
        let is_poll: bool = matches!(
            self.current_action(),
            Some(ActionStepConfig::WaitForJson { .. })
        );
        match outcome {
            ActionOutcome::Success { status } => {
                self.retry_attempt = 0;
                self.next_retry_at = None;
                self.last_http_status = Some(status);
                self.last_http_error = None;
                self.last_success_at = Some(now);
                self.advance_step(target, now);
            },
            ActionOutcome::Failure { status, error } => {
                self.last_http_status = status;
                self.last_http_error = error;
                if is_poll {
                    self.next_retry_at = Some(now.plus(self.poll_every()));
                } else {
                    self.next_retry_at =
                    Some(now.plus(backoff(self.retry_attempt, retry_initial, retry_max)));
                    self.retry_attempt = self.retry_attempt.saturating_add(1);
                }
            },
            ActionOutcome::Pending { status } => {
                self.last_http_status = Some(status);
                self.last_http_error = None;
                self.next_retry_at = Some(now.plus(self.poll_every()));
            },
        }
    }

    /// Applies the configured timeout policy for the current JSON wait step.
    pub fn record_wait_timeout(
        &mut self,
        target: BinaryState,
        step_index: usize,
        now: Instant,
        retry_initial: Duration,
        retry_max: Duration,
    )
        requires
            old(self).valid(),
            now.current(),
            retry_initial.valid(),
            retry_max.valid(),
        ensures
            *final(self) == (if old(self).awaits(target, step_index) {
                old(self).timed_out(now, retry_initial, retry_max)
            } else {
                *old(self)
            }),
            final(self).valid(),
            old(self).coherent() ==> final(self).coherent(),
    {
        if !self.is_awaiting(target, step_index) {
            return;
        }
        if let Some(ActionStepConfig::WaitForJson { on_timeout, .. }) = self.current_action() {
            match on_timeout {
                WaitTimeoutPolicy::Continue => {
                    self.advance_step(target, now);
                },
                WaitTimeoutPolicy::Retry => {
                    let delay: Duration = backoff(self.retry_attempt, retry_initial, retry_max);
                    self.retry_attempt = self.retry_attempt.saturating_add(1);
                    self.step_started_at = Some(now.plus(delay));
                    self.next_retry_at = Some(now.plus(delay));
                },
            }
        }
    }

    /// Returns whether a matching JSON wait step has reached its deadline.
    pub fn wait_timed_out(&self, target: BinaryState, step_index: usize, now: Instant) -> (answer:
        bool)
        ensures
            answer == (self.awaits(target, step_index) && self.deadline_passed(now)),
    {
        if !self.is_awaiting(target, step_index) {
            return false;
        }
        match self.current_action() {
            Some(ActionStepConfig::WaitForJson { timeout, .. }) => {
                now.saturating_duration_since(self.step_started_at.unwrap_or(now)).nanos
                    >= timeout.nanos
            },
            _ => false,
        }
    }

    fn is_awaiting(&self, target: BinaryState, step_index: usize) -> (answer: bool)
        ensures
            answer == self.awaits(target, step_index),
    {
        match self.pending_target_state {
            Some(pending) => pending == target && self.action_step_index == step_index,
            None => false,
        }
    }

    fn due_attempt(&mut self, now: Instant) -> (decision: TickDecision)
        requires
            old(self).valid(),
            now.current(),
        ensures
            (*final(self), decision) == old(self).due(now),
            final(self).valid(),
    {
        if self.pending_target_state.is_some() {
            return self.due_sequence_step(now);
        }
        let desired: BinaryState = match self.desired_state {
            Some(desired) => desired,
            None => {
                return TickDecision::Idle;
            },
        };
        if let Some(applied) = self.applied_state {
            if applied == desired {
                return TickDecision::Idle;
            }
        }
        self.pending_target_state = Some(desired);
        self.action_step_index = 0;
        self.step_started_at = Some(now);
        self.retry_attempt = 0;
        self.next_retry_at = None;
        self.due_sequence_step(now)
    }

    fn due_sequence_step(&mut self, now: Instant) -> (decision: TickDecision)
        requires
            old(self).valid(),
            now.current(),
        ensures
            (*final(self), decision) == old(self).stepped(now),
            final(self).valid(),
        decreases old(self).steps_left(),
    {
        let target: BinaryState = match self.pending_target_state {
            Some(target) => target,
            None => {
                return TickDecision::Idle;
            },
        };
        let action = match self.current_action() {
            Some(action) => action,
            None => {
                return TickDecision::Idle;
            },
        };
        match action {
            ActionStepConfig::Delay { duration } => {
                let started: Instant = self.step_started_at.unwrap_or(now);
                self.step_started_at = Some(started);
                if now.saturating_duration_since(started).nanos >= duration.nanos {
                    proof {
                        self.lemma_step_count_fits(target);
                    }
                    self.advance_step(target, now);
                    self.due_sequence_step(now)
                } else {
                    TickDecision::Idle
                }
            },
            ActionStepConfig::WaitForJson { timeout, .. } => {
                if now.saturating_duration_since(self.step_started_at.unwrap_or(now)).nanos
                    >= timeout.nanos {
                    TickDecision::WaitTimedOut { target, step_index: self.action_step_index }
                } else {
                    self.retry_decision(target, now)
                }
            },
            ActionStepConfig::Request { .. } => self.retry_decision(target, now),
        }
    }

    fn retry_decision(&self, target: BinaryState, now: Instant) -> (decision: TickDecision)
        ensures
            decision == (if self.next_retry_at is None || now.nanos >= self.next_retry_at->0.nanos {
                TickDecision::Attempt { target, step_index: self.action_step_index }
            } else {
                TickDecision::Idle
            }),
    {
        match self.next_retry_at {
            Some(retry_at) => {
                if now.nanos >= retry_at.nanos {
                    TickDecision::Attempt { target, step_index: self.action_step_index }
                } else {
                    TickDecision::Idle
                }
            },
            None => TickDecision::Attempt { target, step_index: self.action_step_index },
        }
    }

    fn advance_step(&mut self, target: BinaryState, now: Instant)
        requires
            old(self).valid(),
            old(self).pending_target_state == Some(target),
            now.current(),
        ensures
            *final(self) == old(self).advanced(target, now),
            final(self).valid(),
    {
        self.retry_attempt = 0;
        self.next_retry_at = None;
        let count: usize = self.transition(target).action_count();
        if self.action_step_index + 1 >= count {
            let hold_for: Duration = self.transition(target).hold_for;
            self.applied_state = Some(target);
            self.desired_state = Some(target);
            self.pending_target_state = None;
            self.action_step_index = 0;
            self.step_started_at = None;
            self.hold_until = Some(now.plus(hold_for));
            self.on_condition_started_at = None;
            self.off_condition_started_at = None;
        } else {
            self.action_step_index = self.action_step_index + 1;
            self.step_started_at = Some(now);
        }
    }

    /// Returns the configured transition for a target state.
    pub fn transition(&self, target: BinaryState) -> (transition: &TransitionConfig)
        ensures
            *transition == self.transition_to(target),
    {
        match target {
            BinaryState::On => &self.config.on,
            BinaryState::Off => &self.config.off,
        }
    }

    fn current_action(&self) -> (action: Option<ActionStepConfig>)
        ensures
            action == self.step(),
    {
        match self.pending_target_state {
            Some(target) => self.transition(target).action(self.action_step_index),
            None => None,
        }
    }

    fn poll_every(&self) -> (span: Duration)
        ensures
            span == self.poll_interval(),
            self.valid() ==> span.valid(),
    {
        match self.current_action() {
            Some(ActionStepConfig::WaitForJson { poll_every, .. }) => poll_every,
            _ => Duration::zero(),
        }
    }
}

fn update_timer(timer: Option<Instant>, matched: bool, now: Instant) -> (updated: Option<Instant>)
    ensures
        updated == timer_after(timer, matched, now),
{
    if matched {
        Some(timer.unwrap_or(now))
    } else {
        None
    }
}

fn timer_satisfied(
    started_at: Option<Instant>,
    matched: bool,
    now: Instant,
    duration: Duration,
) -> (answer: bool)
    ensures
        answer == timer_ripe(started_at, matched, now, duration),
{
    match started_at {
        Some(started_at) => matched && now.saturating_duration_since(started_at).nanos
            >= duration.nanos,
        None => false,
    }
}

/// Delay after failed attempt number `attempt`, counted from zero.
pub fn backoff(attempt: u32, initial: Duration, max: Duration) -> (delay: Duration)
    requires
        initial.valid(),
        max.valid(),
    ensures
        delay.nanos == backoff_nanos(attempt as nat, initial.nanos as int, max.nanos as int),
        delay.valid(),
{
    let mut nanos: u128 = initial.nanos;
    let mut doubled: u32 = 0;
    proof {
        vstd::arithmetic::power2::lemma2_to64();
    }
    while doubled < attempt && nanos <= max.nanos && nanos > 0
        invariant
            doubled <= attempt,
            initial.valid(),
            max.valid(),
            nanos <= 2 * MAX_NANOS,
            nanos == initial.nanos * pow2(doubled as nat),
        decreases attempt - doubled,
    {
        proof {
            lemma_pow2_unfold((doubled + 1) as nat);
            assert(nanos * 2 == initial.nanos * (2 * pow2(doubled as nat))) by (nonlinear_arith)
                requires
                    nanos == initial.nanos * pow2(doubled as nat),
            ;
        }
        nanos = nanos * 2;
        doubled = doubled + 1;
    }
    proof {
        lemma_scale_grows(initial.nanos as int, doubled as nat, attempt as nat);
        if nanos == 0 {
            lemma_pow2_pos(doubled as nat);
            assert(initial.nanos == 0) by (nonlinear_arith)
                requires
                    0 == initial.nanos * pow2(doubled as nat),
                    pow2(doubled as nat) > 0,
            ;
            assert(initial.nanos * pow2(attempt as nat) == 0) by (nonlinear_arith)
                requires
                    initial.nanos == 0,
            ;
        }
    }
    if nanos <= max.nanos {
        Duration { nanos }
    } else {
        max
    }
}

proof fn lemma_scale_grows(initial: int, fewer: nat, more: nat)
    requires
        initial >= 0,
        fewer <= more,
    ensures
        initial * pow2(fewer) <= initial * pow2(more),
{
    if fewer < more {
        vstd::arithmetic::power2::lemma_pow2_strictly_increases(fewer, more);
        assert(initial * pow2(fewer) <= initial * pow2(more)) by (nonlinear_arith)
            requires
                initial >= 0,
                pow2(fewer) < pow2(more),
        ;
    }
}

} // verus!
