//! Configuration for `wattdog` and the rules it must satisfy.

use vstd::prelude::*;

use crate::address::{scheme_of, url_scheme};
use crate::clock::Duration;
use crate::float::{is_widened, Double, Single};
use crate::sample::Sample;
use crate::text::{blank, is_blank, parse_unsigned, unsigned_number};

verus! {

/// Complete daemon configuration.
#[derive(Debug)]
pub struct Config {
    /// Local sample storage configuration.
    pub data: DataConfig,
    /// Metrics server configuration.
    pub metrics: MetricsConfig,
    /// HTTP action configuration.
    pub http: HttpConfig,
    /// Threshold state definitions.
    pub states: Vec<StateConfig>,
}

/// Local Parquet storage configuration.
#[derive(Debug)]
pub struct DataConfig {
    /// Directory where local Parquet data files are written.
    pub dir: String,
    /// How often to close the active Parquet file and start a new one.
    pub roll: RollPeriod,
}

/// File roll period for completed Parquet files.
#[derive(Clone, Copy, Debug, PartialEq, Eq, Structural)]
pub enum RollPeriod {
    /// Close and finalize the active Parquet file at each UTC hour boundary.
    Hourly,
    /// Close and finalize the active Parquet file at each UTC day boundary.
    Daily,
}

impl Default for RollPeriod {
    fn default() -> (period: Self)
        ensures
            period == RollPeriod::Hourly,
    {
        RollPeriod::Hourly
    }
}

/// Metrics endpoint configuration.
#[derive(Debug)]
pub struct MetricsConfig {
    /// Metrics HTTP listen address: an IP address and a port.
    pub listen: String,
}

impl Default for MetricsConfig {
    fn default() -> (config: Self)
        ensures
            config.listen@ == "127.0.0.1:9107"@,
    {
        MetricsConfig { listen: default_metrics_listen() }
    }
}

/// Shared HTTP action configuration.
#[derive(Clone, Copy, Debug, PartialEq, Eq, Structural)]
pub struct HttpConfig {
    /// HTTP method used for actions.
    pub method: HttpMethod,
    /// Per-request timeout.
    pub timeout: Duration,
    /// First retry delay after an action failure.
    pub retry_initial: Duration,
    /// Maximum retry delay after repeated failures.
    pub retry_max: Duration,
    /// Reject action URLs that are not HTTPS.
    pub require_https: bool,
    /// Allow invalid TLS certificates for action endpoints.
    pub allow_invalid_certs: bool,
}

/// HTTP request methods.
#[derive(Clone, Copy, Debug, PartialEq, Eq, Structural)]
pub enum HttpMethod {
    /// GET request, used to poll.
    Get,
    /// POST action request.
    Post,
    /// PUT action request.
    Put,
}

/// One configured binary output state driven by one Thornwave measurement.
#[derive(Debug)]
pub struct StateConfig {
    /// Unique state name used in metrics and logs.
    pub name: String,
    /// Thornwave device serial number, decimal only.
    pub serial: String,
    /// Measurement field used for threshold comparisons.
    pub field: MeasurementField,
    /// Initial convergence target when the input is fresh and neutral.
    pub default_state: BinaryState,
    /// Maximum age for latest input before decisions pause.
    pub stale_after: Duration,
    /// Transition that desires ON.
    pub on: TransitionConfig,
    /// Transition that desires OFF.
    pub off: TransitionConfig,
}

/// Binary state used for desired and applied action state.
#[derive(Clone, Copy, Debug, PartialEq, Eq, Structural)]
pub enum BinaryState {
    /// Enabled state.
    On,
    /// Disabled state.
    Off,
}

/// One threshold transition target.
#[derive(Debug)]
pub struct TransitionConfig {
    /// Comparison operator.
    pub op: ComparisonOp,
    /// Threshold value.
    pub value: Double,
    /// Required continuous match duration.
    pub duration: Duration,
    /// Time after this transition is applied during which the opposite one does not
    /// begin to qualify.
    pub hold_for: Duration,
    /// Absolute action URL of a transition that is a single request. Never log this
    /// in full.
    pub url: Option<String>,
    /// Action sequence of a transition without a single URL.
    pub actions: Vec<ActionStepConfig>,
}

/// One step of an action sequence.
#[derive(Debug)]
pub enum ActionStepConfig {
    /// Send one request.
    Request {
        /// Method, where it is not the shared one.
        method: Option<HttpMethod>,
        /// Absolute URL. Never log this in full.
        url: String,
    },
    /// Poll a JSON document until one of its values is the expected one.
    WaitForJson {
        /// Absolute URL. Never log this in full.
        url: String,
        /// JSON pointer to the value.
        pointer: String,
        /// Expected value, as JSON text.
        expected: String,
        /// Time between two polls.
        poll_every: Duration,
        /// Longest wait.
        timeout: Duration,
        /// What to do after the longest wait.
        on_timeout: WaitTimeoutPolicy,
    },
    /// Let time pass.
    Delay {
        /// How much time.
        duration: Duration,
    },
}

/// What follows a JSON wait that reached its deadline.
#[derive(Clone, Copy, Debug, PartialEq, Eq, Structural)]
pub enum WaitTimeoutPolicy {
    /// Go on with the next step.
    Continue,
    /// Start the wait again after a delay.
    Retry,
}

/// Thornwave measurement fields for action thresholds.
#[derive(Clone, Copy, Debug, PartialEq, Eq, Structural)]
pub enum MeasurementField {
    /// Voltage channel 1 in volts.
    Voltage1Volts,
    /// Voltage channel 2 in volts.
    Voltage2Volts,
    /// Current in amperes.
    CurrentAmps,
    /// Power in watts.
    PowerWatts,
}

/// Threshold comparison operators.
#[derive(Clone, Copy, Debug, PartialEq, Eq, Structural)]
pub enum ComparisonOp {
    /// Less than.
    Lt,
    /// Less than or equal.
    Le,
    /// Greater than.
    Gt,
    /// Greater than or equal.
    Ge,
}

/// What is wrong with a configuration.
#[derive(Clone, Copy, Debug, PartialEq, Eq, Structural)]
pub enum ConfigError {
    /// No state is defined.
    NoStates,
    /// `http.retry_initial` is zero.
    RetryInitialZero,
    /// `http.retry_max` is zero.
    RetryMaxZero,
    /// `http.retry_initial` is above `http.retry_max`.
    RetryInitialAboveMax,
    /// `http.retry_max` is above five seconds.
    RetryMaxTooLong,
    /// One state is at fault.
    State {
        /// Position of the state.
        index: usize,
        /// What is wrong with it.
        problem: StateProblem,
    },
}

/// What is wrong with one state.
#[derive(Clone, Copy, Debug, PartialEq, Eq, Structural)]
pub enum StateProblem {
    /// The name is blank.
    NameEmpty,
    /// An earlier state has the same name.
    NameDuplicate,
    /// The serial is blank.
    SerialEmpty,
    /// The serial is not an unsigned decimal integer.
    SerialInvalid,
    /// `stale_after` is zero.
    StaleAfterZero,
    /// The actions of one transition are at fault.
    Transition {
        /// Which transition.
        target: BinaryState,
        /// What is wrong with its actions.
        problem: ActionProblem,
    },
    /// Both thresholds point in the same direction.
    SameDirection,
    /// Some value satisfies both thresholds.
    Overlap,
}

/// What is wrong with the actions of one transition.
#[derive(Clone, Copy, Debug, PartialEq, Eq, Structural)]
pub enum ActionProblem {
    /// There is neither a URL nor a sequence.
    Missing,
    /// There is a URL and a sequence.
    UrlAndSequence,
    /// A URL is not an absolute URL.
    InvalidUrl,
    /// A URL uses `http` where `https` is required.
    NotHttps,
    /// A URL uses neither `http` nor `https`.
    UnsupportedScheme,
}

impl Clone for ActionStepConfig {
    fn clone(&self) -> (copy: Self)
        ensures
            copy == *self,
    {
        match self {
            ActionStepConfig::Request { method, url } => ActionStepConfig::Request {
                method: *method,
                url: url.clone(),
            },
            ActionStepConfig::WaitForJson {
                url,
                pointer,
                expected,
                poll_every,
                timeout,
                on_timeout,
            } => ActionStepConfig::WaitForJson {
                url: url.clone(),
                pointer: pointer.clone(),
                expected: expected.clone(),
                poll_every: *poll_every,
                timeout: *timeout,
                on_timeout: *on_timeout,
            },
            ActionStepConfig::Delay { duration } => ActionStepConfig::Delay {
                duration: *duration,
            },
        }
    }
}

/// Whether two transitions are configured alike.
pub open spec fn same_transition(a: TransitionConfig, b: TransitionConfig) -> bool {
    &&& a.op == b.op
    &&& a.value == b.value
    &&& a.duration == b.duration
    &&& a.hold_for == b.hold_for
    &&& a.url == b.url
    &&& a.actions@ == b.actions@
}

impl Clone for TransitionConfig {
    fn clone(&self) -> (copy: Self)
        ensures
            same_transition(copy, *self),
    {
        let url = match &self.url {
            Some(url) => Some(url.clone()),
            None => None,
        };
        let mut actions: Vec<ActionStepConfig> = Vec::new();
        let mut i: usize = 0;
        while i < self.actions.len()
            invariant
                i <= self.actions.len(),
                actions@ =~= self.actions@.take(i as int),
            decreases self.actions.len() - i,
        {
            actions.push(self.actions[i].clone());
            i = i + 1;
        }
        assert(actions@ =~= self.actions@);
        TransitionConfig {
            op: self.op,
            value: self.value,
            duration: self.duration,
            hold_for: self.hold_for,
            url,
            actions,
        }
    }
}

/// Whether two states are configured alike.
pub open spec fn same_state(a: StateConfig, b: StateConfig) -> bool {
    &&& a.name == b.name
    &&& a.serial == b.serial
    &&& a.field == b.field
    &&& a.default_state == b.default_state
    &&& a.stale_after == b.stale_after
    &&& same_transition(a.on, b.on)
    &&& same_transition(a.off, b.off)
}

impl Clone for StateConfig {
    fn clone(&self) -> (copy: Self)
        ensures
            same_state(copy, *self),
    {
        StateConfig {
            name: self.name.clone(),
            serial: self.serial.clone(),
            field: self.field,
            default_state: self.default_state,
            stale_after: self.stale_after,
            on: self.on.clone(),
            off: self.off.clone(),
        }
    }
}

impl ActionStepConfig {
    /// Whether all spans of the step are valid.
    pub open spec fn valid(self) -> bool {
        match self {
            ActionStepConfig::Request { .. } => true,
            ActionStepConfig::WaitForJson { poll_every, timeout, .. } => poll_every.valid()
                && timeout.valid(),
            ActionStepConfig::Delay { duration } => duration.valid(),
        }
    }

    /// The URL that the step calls, if it calls one.
    pub open spec fn target_url(self) -> Option<Seq<char>> {
        match self {
            ActionStepConfig::Request { url, .. } => Some(url@),
            ActionStepConfig::WaitForJson { url, .. } => Some(url@),
            ActionStepConfig::Delay { .. } => None,
        }
    }
}

impl TransitionConfig {
    /// The steps of the transition, in order. A single URL stands for one request
    /// with the shared method.
    pub open spec fn steps(self) -> Seq<ActionStepConfig> {
        match self.url {
            Some(url) => seq![ActionStepConfig::Request { method: None, url }],
            None => self.actions@,
        }
    }

    /// Whether all spans of the transition are valid.
    pub open spec fn valid(self) -> bool {
        &&& self.duration.valid()
        &&& self.hold_for.valid()
        &&& forall|i: int| 0 <= i < self.steps().len() ==> (#[trigger] self.steps()[i]).valid()
    }

    /// Number of steps.
    pub fn action_count(&self) -> (count: usize)
        ensures
            count == self.steps().len(),
    {
        match &self.url {
            Some(_) => 1,
            None => self.actions.len(),
        }
    }

    /// The step at `index`, if there are that many.
    pub fn action(&self, index: usize) -> (step: Option<ActionStepConfig>)
        ensures
            index < self.steps().len() ==> step == Some(self.steps()[index as int]),
            index >= self.steps().len() ==> step is None,
    {
        match &self.url {
            Some(url) => {
                if index == 0 {
                    Some(ActionStepConfig::Request { method: None, url: url.clone() })
                } else {
                    None
                }
            },
            None => {
                if index < self.actions.len() {
                    Some(self.actions[index].clone())
                } else {
                    None
                }
            },
        }
    }
}

impl StateConfig {
    /// Whether all spans of the state are valid.
    pub open spec fn valid(self) -> bool {
        &&& self.stale_after.valid()
        &&& self.on.valid()
        &&& self.off.valid()
    }
}

impl HttpConfig {
    /// Whether all spans are valid.
    pub open spec fn valid(self) -> bool {
        &&& self.timeout.valid()
        &&& self.retry_initial.valid()
        &&& self.retry_max.valid()
    }
}

impl Config {
    /// Whether all spans are valid.
    pub open spec fn valid(self) -> bool {
        &&& self.http.valid()
        &&& forall|i: int| 0 <= i < self.states.len() ==> (#[trigger] self.states[i]).valid()
    }
}

/// Whether a comparison bounds the value from above.
pub open spec fn is_upper_bound(op: ComparisonOp) -> bool {
    op == ComparisonOp::Lt || op == ComparisonOp::Le
}

/// Whether a comparison accepts the threshold itself.
pub open spec fn is_inclusive(op: ComparisonOp) -> bool {
    op == ComparisonOp::Le || op == ComparisonOp::Ge
}

/// Whether a threshold from below leaves room under one from above: whether it is the
/// smaller number, or the same one and both accept it. The two zeros are the same number.
/// A threshold that is not a number has its place in the total order of encodings.
pub open spec fn overlap(lower: TransitionConfig, upper: TransitionConfig) -> bool {
    let both_inclusive = is_inclusive(lower.op) && is_inclusive(upper.op);
    if lower.value.nan() || upper.value.nan() {
        lower.value.rank() < upper.value.rank() || (lower.value == upper.value && both_inclusive)
    } else {
        lower.value.value() < upper.value.value() || (lower.value.value() == upper.value.value()
            && both_inclusive)
    }
}

/// What is wrong with a pair of thresholds, if anything.
///
/// They must bound the value from opposite sides, and the upper bound must not
/// reach the lower one.
pub open spec fn threshold_problem(on: TransitionConfig, off: TransitionConfig) -> Option<
    StateProblem,
> {
    let upper = if is_upper_bound(on.op) {
        on
    } else {
        off
    };
    let lower = if is_upper_bound(on.op) {
        off
    } else {
        on
    };
    if is_upper_bound(on.op) == is_upper_bound(off.op) {
        Some(StateProblem::SameDirection)
    } else if overlap(lower, upper) {
        Some(StateProblem::Overlap)
    } else {
        None
    }
}

/// What is wrong with one action URL, if anything.
pub open spec fn url_problem(url: Seq<char>, require_https: bool) -> Option<ActionProblem> {
    match scheme_of(url) {
        None => Some(ActionProblem::InvalidUrl),
        Some(scheme) => if scheme == "https"@ {
            None
        } else if scheme == "http"@ {
            if require_https {
                Some(ActionProblem::NotHttps)
            } else {
                None
            }
        } else {
            Some(ActionProblem::UnsupportedScheme)
        },
    }
}

/// What is wrong with the first step at or after `from` that calls an unacceptable
/// URL, if one does.
pub open spec fn step_problem(
    steps: Seq<ActionStepConfig>,
    from: int,
    require_https: bool,
) -> Option<ActionProblem>
    decreases steps.len() - from,
{
    if from < 0 || from >= steps.len() {
        None
    } else {
        match steps[from].target_url() {
            Some(url) => match url_problem(url, require_https) {
                Some(problem) => Some(problem),
                None => step_problem(steps, from + 1, require_https),
            },
            None => step_problem(steps, from + 1, require_https),
        }
    }
}

/// What is wrong with the actions of a transition, if anything.
pub open spec fn action_problem(transition: TransitionConfig, require_https: bool) -> Option<
    ActionProblem,
> {
    if transition.url is None && transition.actions@.len() == 0 {
        Some(ActionProblem::Missing)
    } else if transition.url is Some && transition.actions@.len() > 0 {
        Some(ActionProblem::UrlAndSequence)
    } else {
        step_problem(transition.steps(), 0, require_https)
    }
}

/// Whether an earlier state has the name of the one at `index`.
pub open spec fn name_taken(states: Seq<StateConfig>, index: int) -> bool {
    exists|earlier: int|
        0 <= earlier < index && #[trigger] states[earlier].name@ == states[index].name@
}

/// What is wrong with the state at `index`, if anything.
pub open spec fn state_problem(states: Seq<StateConfig>, index: int, require_https: bool) -> Option<
    StateProblem,
> {
    let state = states[index];
    if blank(state.name@) {
        Some(StateProblem::NameEmpty)
    } else if name_taken(states, index) {
        Some(StateProblem::NameDuplicate)
    } else if blank(state.serial@) {
        Some(StateProblem::SerialEmpty)
    } else if unsigned_number(state.serial@) is None {
        Some(StateProblem::SerialInvalid)
    } else if state.stale_after.nanos == 0 {
        Some(StateProblem::StaleAfterZero)
    } else if action_problem(state.on, require_https) is Some {
        Some(
            StateProblem::Transition {
                target: BinaryState::On,
                problem: action_problem(state.on, require_https)->0,
            },
        )
    } else if action_problem(state.off, require_https) is Some {
        Some(
            StateProblem::Transition {
                target: BinaryState::Off,
                problem: action_problem(state.off, require_https)->0,
            },
        )
    } else {
        threshold_problem(state.on, state.off)
    }
}

/// The first state at or after `from` that is at fault, if one is.
pub open spec fn first_state_error(
    states: Seq<StateConfig>,
    from: int,
    require_https: bool,
) -> Option<ConfigError>
    decreases states.len() - from,
{
    if from < 0 || from >= states.len() {
        None
    } else {
        match state_problem(states, from, require_https) {
            Some(problem) => Some(ConfigError::State { index: from as usize, problem }),
            None => first_state_error(states, from + 1, require_https),
        }
    }
}

/// The first rule that a configuration breaks, if it breaks one.
pub open spec fn config_error(config: Config) -> Option<ConfigError> {
    if config.states@.len() == 0 {
        Some(ConfigError::NoStates)
    } else if config.http.retry_initial.nanos == 0 {
        Some(ConfigError::RetryInitialZero)
    } else if config.http.retry_max.nanos == 0 {
        Some(ConfigError::RetryMaxZero)
    } else if config.http.retry_initial.nanos > config.http.retry_max.nanos {
        Some(ConfigError::RetryInitialAboveMax)
    } else if config.http.retry_max.nanos > 5_000_000_000 {
        Some(ConfigError::RetryMaxTooLong)
    } else {
        first_state_error(config.states@, 0, config.http.require_https)
    }
}

impl Config {
    /// Validates the rules that span several fields.
    ///
    /// Returns the first rule that is broken: required values are empty, invalid, or
    /// inconsistent with each other.
    pub fn validate(&self) -> (result: Result<(), ConfigError>)
        ensures
            result == (match config_error(*self) {
                None => Ok::<(), ConfigError>(()),
                Some(error) => Err::<(), ConfigError>(error),
            }),
    {
        if self.states.len() == 0 {
            return Err(ConfigError::NoStates);
        }
        if self.http.retry_initial.nanos == 0 {
            return Err(ConfigError::RetryInitialZero);
        }
        if self.http.retry_max.nanos == 0 {
            return Err(ConfigError::RetryMaxZero);
        }
        if self.http.retry_initial.nanos > self.http.retry_max.nanos {
            return Err(ConfigError::RetryInitialAboveMax);
        }
        if self.http.retry_max.nanos > 5_000_000_000 {
            return Err(ConfigError::RetryMaxTooLong);
        }
        let mut i: usize = 0;
        while i < self.states.len()
            invariant
                i <= self.states.len(),
                config_error(*self) == first_state_error(
                    self.states@,
                    i as int,
                    self.http.require_https,
                ),
            decreases self.states.len() - i,
        {
            match validate_state(&self.states, i, self.http.require_https) {
                Some(problem) => {
                    return Err(ConfigError::State { index: i, problem });
                },
                None => {},
            }
            i = i + 1;
        }
        Ok(())
    }
}

fn validate_state(states: &Vec<StateConfig>, index: usize, require_https: bool) -> (problem: Option<
    StateProblem,
>)
    requires
        index < states.len(),
    ensures
        problem == state_problem(states@, index as int, require_https),
{
    let state = &states[index];
    if is_blank(state.name.as_str()) {
        return Some(StateProblem::NameEmpty);
    }
    let mut earlier: usize = 0;
    while earlier < index
        invariant
            earlier <= index < states.len(),
            !blank(state.name@),
            state == states@[index as int],
            forall|j: int|
                0 <= j < earlier ==> #[trigger] states@[j].name@ != states@[index as int].name@,
        decreases index - earlier,
    {
        if states[earlier].name == state.name {
            assert(states@[earlier as int].name@ == states@[index as int].name@);
            return Some(StateProblem::NameDuplicate);
        }
        earlier = earlier + 1;
    }
    if is_blank(state.serial.as_str()) {
        return Some(StateProblem::SerialEmpty);
    }
    if parse_unsigned(state.serial.as_str()).is_none() {
        return Some(StateProblem::SerialInvalid);
    }
    if state.stale_after.nanos == 0 {
        return Some(StateProblem::StaleAfterZero);
    }
    match validate_transition(&state.on, require_https) {
        Some(problem) => {
            return Some(StateProblem::Transition { target: BinaryState::On, problem });
        },
        None => {},
    }
    match validate_transition(&state.off, require_https) {
        Some(problem) => {
            return Some(StateProblem::Transition { target: BinaryState::Off, problem });
        },
        None => {},
    }
    validate_thresholds(state)
}

fn validate_transition(transition: &TransitionConfig, require_https: bool) -> (problem: Option<
    ActionProblem,
>)
    ensures
        problem == action_problem(*transition, require_https),
{
    match &transition.url {
        Some(url) => {
            if transition.actions.len() > 0 {
                return Some(ActionProblem::UrlAndSequence);
            }
            proof {
                reveal_with_fuel(step_problem, 2);
            }
            validate_transition_url(url.as_str(), require_https)
        },
        None => {
            if transition.actions.len() == 0 {
                return Some(ActionProblem::Missing);
            }
            let mut i: usize = 0;
            while i < transition.actions.len()
                invariant
                    i <= transition.actions.len(),
                    transition.url is None,
                    transition.actions@.len() > 0,
                    action_problem(*transition, require_https) == step_problem(
                        transition.actions@,
                        i as int,
                        require_https,
                    ),
                decreases transition.actions.len() - i,
            {
                let problem = match &transition.actions[i] {
                    ActionStepConfig::Request { url, .. } => validate_transition_url(
                        url.as_str(),
                        require_https,
                    ),
                    ActionStepConfig::WaitForJson { url, .. } => validate_transition_url(
                        url.as_str(),
                        require_https,
                    ),
                    ActionStepConfig::Delay { .. } => None,
                };
                if problem.is_some() {
                    return problem;
                }
                i = i + 1;
            }
            None
        },
    }
}

fn validate_transition_url(url: &str, require_https: bool) -> (problem: Option<ActionProblem>)
    ensures
        problem == url_problem(url@, require_https),
{
    match url_scheme(url) {
        None => Some(ActionProblem::InvalidUrl),
        Some(scheme) => judge_scheme(&scheme, require_https),
    }
}

/// Judges the scheme of an action URL: `https` is always accepted and `http` unless
/// `https` is required.
pub fn judge_scheme(scheme: &String, require_https: bool) -> (problem: Option<ActionProblem>)
    ensures
        problem == (if scheme@ == "https"@ {
            None::<ActionProblem>
        } else if scheme@ == "http"@ {
            if require_https {
                Some(ActionProblem::NotHttps)
            } else {
                None
            }
        } else {
            Some(ActionProblem::UnsupportedScheme)
        }),
{
    if *scheme == "https".to_owned() {
        None
    } else if *scheme == "http".to_owned() {
        if require_https {
            Some(ActionProblem::NotHttps)
        } else {
            None
        }
    } else {
        Some(ActionProblem::UnsupportedScheme)
    }
}

fn validate_thresholds(state: &StateConfig) -> (problem: Option<StateProblem>)
    ensures
        problem == threshold_problem(state.on, state.off),
{
    let on_upper: bool = upper_bound(state.on.op);
    let off_upper: bool = upper_bound(state.off.op);
    if on_upper == off_upper {
        return Some(StateProblem::SameDirection);
    }
    let (upper, lower) = if on_upper {
        (&state.on, &state.off)
    } else {
        (&state.off, &state.on)
    };
    if overlapping(lower, upper) {
        Some(StateProblem::Overlap)
    } else {
        None
    }
}

fn overlapping(lower: &TransitionConfig, upper: &TransitionConfig) -> (answer: bool)
    ensures
        answer == overlap(*lower, *upper),
{
    let both_inclusive: bool = inclusive(lower.op) && inclusive(upper.op);
    if lower.value.is_nan() || upper.value.is_nan() {
        lower.value.precedes(upper.value) || (lower.value.bits == upper.value.bits
            && both_inclusive)
    } else {
        lower.value.less(upper.value) || (both_inclusive && lower.value.less_or_equal(upper.value))
    }
}

fn upper_bound(op: ComparisonOp) -> (answer: bool)
    ensures
        answer == is_upper_bound(op),
{
    matches!(op, ComparisonOp::Lt | ComparisonOp::Le)
}

fn inclusive(op: ComparisonOp) -> (answer: bool)
    ensures
        answer == is_inclusive(op),
{
    matches!(op, ComparisonOp::Le | ComparisonOp::Ge)
}

impl MeasurementField {
    /// The number that a sample holds in this field.
    pub open spec fn reading(self, sample: Sample) -> Single {
        match self {
            MeasurementField::Voltage1Volts => sample.voltage1_volts,
            MeasurementField::Voltage2Volts => sample.voltage2_volts,
            MeasurementField::CurrentAmps => sample.current_amps,
            MeasurementField::PowerWatts => sample.power_watts,
        }
    }

    /// Returns this field's numeric value from a sample.
    pub fn value(self, sample: &Sample) -> (value: Double)
        ensures
            is_widened(self.reading(*sample), value),
    {
        match self {
            MeasurementField::Voltage1Volts => sample.voltage1_volts.widen(),
            MeasurementField::Voltage2Volts => sample.voltage2_volts.widen(),
            MeasurementField::CurrentAmps => sample.current_amps.widen(),
            MeasurementField::PowerWatts => sample.power_watts.widen(),
        }
    }

    /// Metric-safe name of a field.
    pub open spec fn label(self) -> Seq<char> {
        match self {
            MeasurementField::Voltage1Volts => "voltage1_volts"@,
            MeasurementField::Voltage2Volts => "voltage2_volts"@,
            MeasurementField::CurrentAmps => "current_amps"@,
            MeasurementField::PowerWatts => "power_watts"@,
        }
    }

    /// Metric-safe field name.
    pub fn as_str(self) -> (name: &'static str)
        ensures
            name@ == self.label(),
    {
        match self {
            MeasurementField::Voltage1Volts => "voltage1_volts",
            MeasurementField::Voltage2Volts => "voltage2_volts",
            MeasurementField::CurrentAmps => "current_amps",
            MeasurementField::PowerWatts => "power_watts",
        }
    }
}

impl BinaryState {
    /// Number that stands for the state in metrics.
    pub open spec fn number(self) -> i64 {
        match self {
            BinaryState::On => 1,
            BinaryState::Off => 0,
        }
    }

    /// Metric-safe name of the state.
    pub open spec fn label(self) -> Seq<char> {
        match self {
            BinaryState::On => "on"@,
            BinaryState::Off => "off"@,
        }
    }

    /// Numeric value used for metrics.
    pub fn metric_value(self) -> (value: i64)
        ensures
            value == self.number(),
    {
        match self {
            BinaryState::On => 1,
            BinaryState::Off => 0,
        }
    }

    /// Metric-safe state name.
    pub fn as_str(self) -> (name: &'static str)
        ensures
            name@ == self.label(),
    {
        match self {
            BinaryState::On => "on",
            BinaryState::Off => "off",
        }
    }
}

fn default_metrics_listen() -> (listen: String)
    ensures
        listen@ == "127.0.0.1:9107"@,
{
    "127.0.0.1:9107".to_owned()
}

/// Per-request timeout where none is configured.
pub fn default_http_timeout() -> (span: Duration)
    ensures
        span.nanos == 5_000_000_000,
        span.valid(),
{
    Duration::from_secs(5)
}

/// First retry delay where none is configured.
pub fn default_retry_initial() -> (span: Duration)
    ensures
        span.nanos == 1_000_000_000,
        span.valid(),
{
    Duration::from_secs(1)
}

/// Longest retry delay where none is configured.
pub fn default_retry_max() -> (span: Duration)
    ensures
        span.nanos == 5_000_000_000,
        span.valid(),
{
    Duration::from_secs(5)
}

} // verus!
