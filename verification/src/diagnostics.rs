//! What is said about a configuration that breaks a rule, and what holds of one that
//! breaks none.

use vstd::prelude::*;

use crate::address::{scheme_of, url_scheme};
use crate::config::{
    action_problem, config_error, first_state_error, name_taken, state_problem, step_problem,
    threshold_problem, url_problem, ActionProblem, ActionStepConfig, BinaryState, Config,
    ConfigError, StateConfig, StateProblem, TransitionConfig,
};
use crate::float::Double;
use crate::state::condition::{law_valid_thresholds_exclude_each_other, satisfies};
use crate::state::engine::serials_readable;
use crate::text::{blank, unsigned_number};

pub mod messages;

verus! {

/// The scheme of the first URL at or after step `from` that is neither `http` nor `https`,
/// or no text if there is none.
pub open spec fn foreign_scheme(steps: Seq<ActionStepConfig>, from: int) -> Seq<char>
    decreases steps.len() - from,
{
    if from < 0 || from >= steps.len() {
        Seq::empty()
    } else {
        match steps[from].target_url() {
            Some(url) => match scheme_of(url) {
                Some(scheme) => if scheme != "http"@ && scheme != "https"@ {
                    scheme
                } else {
                    foreign_scheme(steps, from + 1)
                },
                None => foreign_scheme(steps, from + 1),
            },
            None => foreign_scheme(steps, from + 1),
        }
    }
}

/// What is said of the actions of a transition.
pub open spec fn action_text(problem: ActionProblem, transition: TransitionConfig) -> Seq<char> {
    match problem {
        ActionProblem::Missing => " needs a URL or a sequence of actions"@,
        ActionProblem::UrlAndSequence => " must not have both a URL and a sequence of actions"@,
        ActionProblem::InvalidUrl => " URL is not valid"@,
        ActionProblem::NotHttps => " URL must use https"@,
        ActionProblem::UnsupportedScheme => " URL has unsupported scheme "@ + foreign_scheme(
            transition.steps(),
            0,
        ),
    }
}

/// What is said of a state.
pub open spec fn state_text(problem: StateProblem, state: StateConfig) -> Seq<char> {
    let subject = "state "@ + state.name@;
    match problem {
        StateProblem::NameEmpty => "state name must not be empty"@,
        StateProblem::NameDuplicate => "duplicate state name "@ + state.name@,
        StateProblem::SerialEmpty => subject + " serial must not be empty"@,
        StateProblem::SerialInvalid => subject + " serial must be an unsigned decimal integer"@,
        StateProblem::StaleAfterZero => subject + " stale_after must be greater than zero"@,
        StateProblem::Transition { target, problem } => subject + " "@ + target.label()
            + action_text(
            problem,
            match target {
                BinaryState::On => state.on,
                BinaryState::Off => state.off,
            },
        ),
        StateProblem::SameDirection => subject
            + " on/off thresholds must use opposite directions"@,
        StateProblem::Overlap => subject + " on/off thresholds overlap"@,
    }
}

/// What is said of a configuration.
pub open spec fn error_text(error: ConfigError, states: Seq<StateConfig>) -> Seq<char> {
    match error {
        ConfigError::NoStates => "at least one state is required"@,
        ConfigError::RetryInitialZero => "http.retry_initial must be greater than zero"@,
        ConfigError::RetryMaxZero => "http.retry_max must be greater than zero"@,
        ConfigError::RetryInitialAboveMax => "http.retry_initial must be <= http.retry_max"@,
        ConfigError::RetryMaxTooLong => "http.retry_max must be <= 5s"@,
        ConfigError::State { index, problem } => state_text(problem, states[index as int]),
    }
}

impl ConfigError {
    /// Says which rule a configuration breaks.
    pub fn message(self, config: &Config) -> (message: String)
        requires
            self is State ==> self->index < config.states.len(),
        ensures
            message@ == error_text(self, config.states@),
    {
        match self {
            ConfigError::NoStates => "at least one state is required".to_owned(),
            ConfigError::RetryInitialZero => {
                "http.retry_initial must be greater than zero".to_owned()
            },
            ConfigError::RetryMaxZero => "http.retry_max must be greater than zero".to_owned(),
            ConfigError::RetryInitialAboveMax => {
                "http.retry_initial must be <= http.retry_max".to_owned()
            },
            ConfigError::RetryMaxTooLong => "http.retry_max must be <= 5s".to_owned(),
            ConfigError::State { index, problem } => problem.message(&config.states[index]),
        }
    }
}

impl StateProblem {
    /// Says what is wrong with a state.
    pub fn message(self, state: &StateConfig) -> (message: String)
        ensures
            message@ == state_text(self, *state),
    {
        let mut message: String = "state ".to_owned();
        message.append(state.name.as_str());
        match self {
            StateProblem::NameEmpty => {
                return "state name must not be empty".to_owned();
            },
            StateProblem::NameDuplicate => {
                return "duplicate state name ".to_owned().concat(state.name.as_str());
            },
            StateProblem::SerialEmpty => message.append(" serial must not be empty"),
            StateProblem::SerialInvalid => {
                message.append(" serial must be an unsigned decimal integer")
            },
            StateProblem::StaleAfterZero => {
                message.append(" stale_after must be greater than zero")
            },
            StateProblem::Transition { target, problem } => {
                message.append(" ");
                message.append(target.as_str());
                let transition: &TransitionConfig = match target {
                    BinaryState::On => &state.on,
                    BinaryState::Off => &state.off,
                };
                message.append(problem.message(transition).as_str());
            },
            StateProblem::SameDirection => {
                message.append(" on/off thresholds must use opposite directions")
            },
            StateProblem::Overlap => message.append(" on/off thresholds overlap"),
        }
        message
    }
}

impl ActionProblem {
    /// Says what is wrong with the actions of a transition.
    pub fn message(self, transition: &TransitionConfig) -> (message: String)
        ensures
            message@ == action_text(self, *transition),
    {
        match self {
            ActionProblem::Missing => " needs a URL or a sequence of actions".to_owned(),
            ActionProblem::UrlAndSequence => {
                " must not have both a URL and a sequence of actions".to_owned()
            },
            ActionProblem::InvalidUrl => " URL is not valid".to_owned(),
            ActionProblem::NotHttps => " URL must use https".to_owned(),
            ActionProblem::UnsupportedScheme => {
                let mut message: String = " URL has unsupported scheme ".to_owned();
                message.append(find_foreign_scheme(transition).as_str());
                message
            },
        }
    }
}

fn find_foreign_scheme(transition: &TransitionConfig) -> (scheme: String)
    ensures
        scheme@ == foreign_scheme(transition.steps(), 0),
{
    let count: usize = transition.action_count();
    let mut i: usize = 0;
    while i < count
        invariant
            count == transition.steps().len(),
            i <= count,
            foreign_scheme(transition.steps(), 0) == foreign_scheme(transition.steps(), i as int),
        decreases count - i,
    {
        let scheme: Option<String> = match transition.action(i) {
            Some(ActionStepConfig::Request { url, .. }) => url_scheme(url.as_str()),
            Some(ActionStepConfig::WaitForJson { url, .. }) => url_scheme(url.as_str()),
            _ => None,
        };
        if let Some(scheme) = scheme {
            if scheme != "http".to_owned() && scheme != "https".to_owned() {
                return scheme;
            }
        }
        i = i + 1;
    }
    String::new()
}

/// In a configuration that passes validation every state passes.
proof fn lemma_each_state_passes(
    states: Seq<StateConfig>,
    from: int,
    index: int,
    require_https: bool,
)
    requires
        0 <= from <= index < states.len(),
        first_state_error(states, from, require_https) is None,
    ensures
        state_problem(states, index, require_https) is None,
    decreases index - from,
{
    if from < index {
        lemma_each_state_passes(states, from + 1, index, require_https);
    }
}

/// In a sequence that passes validation every URL passes.
proof fn lemma_each_step_passes(
    steps: Seq<ActionStepConfig>,
    from: int,
    index: int,
    require_https: bool,
)
    requires
        0 <= from <= index < steps.len(),
        step_problem(steps, from, require_https) is None,
    ensures
        steps[index].target_url() is Some ==> url_problem(
            steps[index].target_url()->0,
            require_https,
        ) is None,
    decreases index - from,
{
    if from < index {
        lemma_each_step_passes(steps, from + 1, index, require_https);
    }
}

/// A configuration that passes validation has retry delays of at most five seconds.
pub proof fn law_valid_retry_delays(config: Config)
    requires
        config_error(config) is None,
    ensures
        0 < config.http.retry_initial.nanos <= config.http.retry_max.nanos <= 5_000_000_000,
{
}

/// The names of the states of a configuration that passes validation are not blank and
/// differ from each other, and an engine can be built from it.
pub proof fn law_valid_states_have_names_and_serials(config: Config)
    requires
        config_error(config) is None,
    ensures
        0 < config.states@.len(),
        serials_readable(config.states@, config.states@.len() as int),
        forall|i: int| 0 <= i < config.states@.len() ==> !blank(#[trigger] config.states@[i].name@),
        forall|i: int, j: int|
            0 <= i < j < config.states@.len() ==> #[trigger] config.states@[i].name@
                != #[trigger] config.states@[j].name@,
{
    let states = config.states@;
    let https = config.http.require_https;
    assert forall|i: int| 0 <= i < states.len() implies unsigned_number(
        #[trigger] states[i].serial@,
    ) is Some by {
        lemma_each_state_passes(states, 0, i, https);
    }
    assert forall|i: int| 0 <= i < states.len() implies !blank(#[trigger] states[i].name@) by {
        lemma_each_state_passes(states, 0, i, https);
    }
    assert forall|i: int, j: int| 0 <= i < j < states.len() implies #[trigger] states[i].name@
        != #[trigger] states[j].name@ by {
        lemma_each_state_passes(states, 0, j, https);
        assert(!name_taken(states, j));
    }
}

/// Each transition of a configuration that passes validation has an action to take, and
/// each of its URLs is `https`, or `http` unless `https` is required.
pub proof fn law_valid_transitions_have_acceptable_urls(config: Config, index: int, step: int)
    requires
        config_error(config) is None,
        0 <= index < config.states@.len(),
    ensures
        config.states@[index].on.steps().len() > 0,
        config.states@[index].off.steps().len() > 0,
        0 <= step < config.states@[index].on.steps().len() ==> url_accepted(
            config.states@[index].on.steps()[step],
            config.http.require_https,
        ),
        0 <= step < config.states@[index].off.steps().len() ==> url_accepted(
            config.states@[index].off.steps()[step],
            config.http.require_https,
        ),
{
    let https = config.http.require_https;
    lemma_each_state_passes(config.states@, 0, index, https);
    let state = config.states@[index];
    assert(action_problem(state.on, https) is None);
    assert(action_problem(state.off, https) is None);
    if 0 <= step < state.on.steps().len() {
        lemma_each_step_passes(state.on.steps(), 0, step, https);
    }
    if 0 <= step < state.off.steps().len() {
        lemma_each_step_passes(state.off.steps(), 0, step, https);
    }
}

/// Whether the URL of a step, if it has one, is acceptable.
pub open spec fn url_accepted(step: ActionStepConfig, require_https: bool) -> bool {
    step.target_url() is Some ==> {
        let scheme = scheme_of(step.target_url()->0);
        scheme == Some("https"@) || (scheme == Some("http"@) && !require_https)
    }
}

/// No value satisfies both thresholds of a state of a configuration that passes
/// validation.
pub proof fn law_valid_states_are_unambiguous(config: Config, index: int, value: Double)
    requires
        config_error(config) is None,
        0 <= index < config.states@.len(),
    ensures
        threshold_problem(config.states@[index].on, config.states@[index].off) is None,
        !(satisfies(config.states@[index].on, value) && satisfies(
            config.states@[index].off,
            value,
        )),
{
    lemma_each_state_passes(config.states@, 0, index, config.http.require_https);
    law_valid_thresholds_exclude_each_other(
        config.states@[index].on,
        config.states@[index].off,
        value,
    );
}

/// The first error of a configuration, where it is about a state, names one of its states.
pub proof fn law_error_names_a_state(config: Config)
    requires
        config_error(config) is Some,
        config_error(config)->0 is State,
    ensures
        config_error(config)->0->index < config.states@.len(),
{
    assert(config.states.len() <= usize::MAX);
    lemma_error_index(config.states@, 0, config.http.require_https);
}

proof fn lemma_error_index(states: Seq<StateConfig>, from: int, require_https: bool)
    requires
        0 <= from <= states.len() <= usize::MAX,
    ensures
        first_state_error(states, from, require_https) is Some ==> first_state_error(
            states,
            from,
            require_https,
        )->0 is State && first_state_error(states, from, require_https)->0->index < states.len(),
    decreases states.len() - from,
{
    if from < states.len() {
        lemma_error_index(states, from + 1, require_https);
    }
}

} // verus!
