//! What messages say.

use vstd::prelude::*;

use crate::address::scheme_of;
use crate::config::{
    ActionProblem, ActionStepConfig, BinaryState, ConfigError, StateConfig,
    StateProblem, TransitionConfig,
};
use crate::diagnostics::{action_text, error_text, foreign_scheme, state_text};

verus! {

/// Whether a scheme is one that no action may use.
pub open spec fn unusable(url: Seq<char>) -> bool {
    scheme_of(url) is Some && scheme_of(url)->0 != "http"@ && scheme_of(url)->0 != "https"@
}

/// Whether a step calls a URL with an unusable scheme.
pub open spec fn calls_unusable(step: ActionStepConfig) -> bool {
    match step {
        ActionStepConfig::Request { url, .. } => unusable(url@),
        ActionStepConfig::WaitForJson { url, .. } => unusable(url@),
        ActionStepConfig::Delay { .. } => false,
    }
}

/// The URL that a step calls.
pub open spec fn called_url(step: ActionStepConfig) -> Seq<char> {
    match step {
        ActionStepConfig::Request { url, .. } => url@,
        ActionStepConfig::WaitForJson { url, .. } => url@,
        ActionStepConfig::Delay { .. } => seq![],
    }
}

/// The scheme that is named is that of the first step whose URL has an unusable one.
pub proof fn law_first_unusable_scheme_is_named(steps: Seq<ActionStepConfig>, from: int, at: int)
    requires
        0 <= from <= at < steps.len(),
        calls_unusable(steps[at]),
        forall|i: int| from <= i < at ==> !calls_unusable(#[trigger] steps[i]),
    ensures
        Some(foreign_scheme(steps, from)) == scheme_of(called_url(steps[at])),
    decreases at - from,
{
    if from < at {
        assert(!calls_unusable(steps[from]));
        law_first_unusable_scheme_is_named(steps, from + 1, at);
    }
}

/// Each fault of the actions of a transition has its own words.
pub proof fn law_action_faults_have_words(transition: TransitionConfig)
    ensures
        action_text(ActionProblem::Missing, transition)
            == " needs a URL or a sequence of actions"@,
        action_text(ActionProblem::UrlAndSequence, transition)
            == " must not have both a URL and a sequence of actions"@,
        action_text(ActionProblem::InvalidUrl, transition) == " URL is not valid"@,
        action_text(ActionProblem::NotHttps, transition) == " URL must use https"@,
        action_text(ActionProblem::UnsupportedScheme, transition)
            == " URL has unsupported scheme "@ + foreign_scheme(transition.steps(), 0),
{
}

/// A message about a state names it, unless it has no name, and then says what is wrong. One
/// about a transition also says which.
pub proof fn law_messages_name_the_state(
    state: StateConfig,
    target: BinaryState,
    fault: ActionProblem,
)
    ensures
        ({
            let subject = "state "@ + state.name@;
            &&& state_text(StateProblem::NameEmpty, state) == "state name must not be empty"@
            &&& state_text(StateProblem::NameDuplicate, state) == "duplicate state name "@
                + state.name@
            &&& state_text(StateProblem::SerialEmpty, state) == subject
                + " serial must not be empty"@
            &&& state_text(StateProblem::SerialInvalid, state) == subject
                + " serial must be an unsigned decimal integer"@
            &&& state_text(StateProblem::StaleAfterZero, state) == subject
                + " stale_after must be greater than zero"@
            &&& state_text(StateProblem::SameDirection, state) == subject
                + " on/off thresholds must use opposite directions"@
            &&& state_text(StateProblem::Overlap, state) == subject
                + " on/off thresholds overlap"@
            &&& state_text(StateProblem::Transition { target, problem: fault }, state) == subject
                + " "@ + (if target == BinaryState::On {
                "on"@
            } else {
                "off"@
            }) + action_text(
                fault,
                if target == BinaryState::On {
                    state.on
                } else {
                    state.off
                },
            )
        }),
{
}

/// A message about the whole configuration says which rule is broken, and one about a state
/// is about the state at that index.
pub proof fn law_messages_say_which_rule_is_broken(
    states: Seq<StateConfig>,
    index: usize,
    problem: StateProblem,
)
    ensures
        error_text(ConfigError::NoStates, states) == "at least one state is required"@,
        error_text(ConfigError::RetryInitialZero, states)
            == "http.retry_initial must be greater than zero"@,
        error_text(ConfigError::RetryMaxZero, states)
            == "http.retry_max must be greater than zero"@,
        error_text(ConfigError::RetryInitialAboveMax, states)
            == "http.retry_initial must be <= http.retry_max"@,
        error_text(ConfigError::RetryMaxTooLong, states) == "http.retry_max must be <= 5s"@,
        error_text(ConfigError::State { index, problem }, states) == state_text(
            problem,
            states[index as int],
        ),
{
}

} // verus!
