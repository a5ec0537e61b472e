//! Which configurations are accepted, told by what they hold.

use vstd::prelude::*;

use crate::address::scheme_of;
use crate::config::{
    action_problem, config_error, first_state_error, state_problem, step_problem,
    threshold_problem, url_problem, ActionProblem, ActionStepConfig, BinaryState, ComparisonOp,
    Config, ConfigError, StateConfig, StateProblem, TransitionConfig,
};
use crate::text::{unsigned_number, whitespace};

verus! {

/// Whether a text has a character that is not white space.
pub open spec fn says_something(text: Seq<char>) -> bool {
    exists|i: int| 0 <= i < text.len() && !whitespace(#[trigger] text[i])
}

/// Whether a URL has a scheme that actions may use.
pub open spec fn callable(url: Seq<char>, require_https: bool) -> bool {
    scheme_of(url) == Some("https"@) || (scheme_of(url) == Some("http"@) && !require_https)
}

/// Whether a step calls no URL, or one that actions may use.
pub open spec fn step_callable(step: ActionStepConfig, require_https: bool) -> bool {
    match step {
        ActionStepConfig::Request { url, .. } => callable(url@, require_https),
        ActionStepConfig::WaitForJson { url, .. } => callable(url@, require_https),
        ActionStepConfig::Delay { .. } => true,
    }
}

/// Whether a transition has one kind of action, all of whose URLs may be used.
pub open spec fn actionable(transition: TransitionConfig, require_https: bool) -> bool {
    match transition.url {
        Some(url) => transition.actions@.len() == 0 && callable(url@, require_https),
        None => transition.actions@.len() > 0 && forall|i: int|
            0 <= i < transition.actions@.len() ==> step_callable(
                #[trigger] transition.actions@[i],
                require_https,
            ),
    }
}

/// Whether a threshold bounds values from above.
pub open spec fn from_above(op: ComparisonOp) -> bool {
    match op {
        ComparisonOp::Lt => true,
        ComparisonOp::Le => true,
        ComparisonOp::Gt => false,
        ComparisonOp::Ge => false,
    }
}

/// Whether a threshold accepts its own value.
pub open spec fn accepts_itself(op: ComparisonOp) -> bool {
    match op {
        ComparisonOp::Lt => false,
        ComparisonOp::Le => true,
        ComparisonOp::Gt => false,
        ComparisonOp::Ge => true,
    }
}

/// Whether two thresholds that are numbers stand apart: the one from above lies below the
/// other, or at the same number, which not both of them accept.
pub open spec fn apart(upper: TransitionConfig, lower: TransitionConfig) -> bool {
    ||| upper.value.value() < lower.value.value()
    ||| upper.value.value() == lower.value.value() && !(accepts_itself(upper.op) && accepts_itself(
        lower.op,
    ))
}

/// Whether two thresholds point in opposite directions and, where they are numbers, stand
/// apart.
pub open spec fn separate(on: TransitionConfig, off: TransitionConfig) -> bool {
    &&& from_above(on.op) != from_above(off.op)
    &&& !on.value.nan() && !off.value.nan() ==> if from_above(on.op) {
        apart(on, off)
    } else {
        apart(off, on)
    }
}

/// Whether a state on its own is as it must be.
pub open spec fn sound(state: StateConfig, require_https: bool) -> bool {
    &&& says_something(state.name@)
    &&& says_something(state.serial@)
    &&& unsigned_number(state.serial@) is Some
    &&& state.stale_after.nanos > 0
    &&& actionable(state.on, require_https)
    &&& actionable(state.off, require_https)
    &&& separate(state.on, state.off)
}

/// Whether no two states have the same name.
pub open spec fn names_differ(states: Seq<StateConfig>) -> bool {
    forall|i: int, j: int|
        0 <= i < j < states.len() ==> #[trigger] states[i].name@ != #[trigger] states[j].name@
}

/// Whether the retry delays are positive, in order and no longer than five seconds.
pub open spec fn retries_in_bounds(config: Config) -> bool {
    0 < config.http.retry_initial.nanos <= config.http.retry_max.nanos <= 5_000_000_000
}

/// Whether the thresholds of a state are numbers.
pub open spec fn has_numbers(state: StateConfig) -> bool {
    !state.on.value.nan() && !state.off.value.nan()
}

proof fn lemma_url(url: Seq<char>, require_https: bool)
    ensures
        url_problem(url, require_https) is None <==> callable(url, require_https),
        url_problem(url, require_https) == Some(ActionProblem::InvalidUrl) <==> scheme_of(
            url,
        ) is None,
        url_problem(url, require_https) == Some(ActionProblem::NotHttps) <==> scheme_of(url)
            == Some("http"@) && require_https,
        url_problem(url, require_https) == Some(ActionProblem::UnsupportedScheme) <==> scheme_of(
            url,
        ) is Some && scheme_of(url) != Some("http"@) && scheme_of(url) != Some("https"@),
{
    reveal_strlit("http");
    reveal_strlit("https");
    assert("http"@.len() != "https"@.len());
}

proof fn lemma_steps(steps: Seq<ActionStepConfig>, from: int, require_https: bool)
    requires
        0 <= from <= steps.len(),
    ensures
        step_problem(steps, from, require_https) is None <==> forall|i: int|
            from <= i < steps.len() ==> step_callable(#[trigger] steps[i], require_https),
        step_problem(steps, from, require_https) is Some ==> exists|i: int|
            from <= i < steps.len() && !(#[trigger] steps[i] is Delay) && Some(
                step_problem(steps, from, require_https)->0,
            ) == url_problem(steps[i].target_url()->0, require_https) && forall|j: int|
                from <= j < i ==> step_callable(#[trigger] steps[j], require_https),
        !(step_problem(steps, from, require_https) == Some(ActionProblem::Missing)),
        !(step_problem(steps, from, require_https) == Some(ActionProblem::UrlAndSequence)),
    decreases steps.len() - from,
{
    if from < steps.len() {
        lemma_steps(steps, from + 1, require_https);
        match steps[from] {
            ActionStepConfig::Request { url, .. } => {
                lemma_url(url@, require_https);
            },
            ActionStepConfig::WaitForJson { url, .. } => {
                lemma_url(url@, require_https);
            },
            ActionStepConfig::Delay { .. } => {},
        }
        assert(step_callable(steps[from], require_https) || step_problem(
            steps,
            from,
            require_https,
        ) == url_problem(steps[from].target_url()->0, require_https));
    }
}

proof fn lemma_actions(transition: TransitionConfig, require_https: bool)
    ensures
        action_problem(transition, require_https) is None <==> actionable(
            transition,
            require_https,
        ),
{
    if transition.url is Some {
        lemma_url(transition.url->0@, require_https);
        reveal_with_fuel(step_problem, 2);
    } else {
        lemma_steps(transition.actions@, 0, require_https);
    }
}

proof fn lemma_thresholds(on: TransitionConfig, off: TransitionConfig)
    ensures
        threshold_problem(on, off) is None ==> separate(on, off),
        separate(on, off) && !on.value.nan() && !off.value.nan() ==> threshold_problem(
            on,
            off,
        ) is None,
{
}

proof fn lemma_state(states: Seq<StateConfig>, index: int, require_https: bool)
    requires
        0 <= index < states.len(),
    ensures
        state_problem(states, index, require_https) is None ==> sound(
            states[index],
            require_https,
        ) && forall|earlier: int|
            0 <= earlier < index ==> #[trigger] states[earlier].name@ != states[index].name@,
        sound(states[index], require_https) && has_numbers(states[index]) && (forall|earlier: int|
            0 <= earlier < index ==> #[trigger] states[earlier].name@ != states[index].name@)
            ==> state_problem(states, index, require_https) is None,
{
    lemma_actions(states[index].on, require_https);
    lemma_actions(states[index].off, require_https);
    lemma_thresholds(states[index].on, states[index].off);
}

proof fn lemma_first_error(states: Seq<StateConfig>, from: int, require_https: bool)
    requires
        0 <= from <= states.len() <= usize::MAX,
    ensures
        first_state_error(states, from, require_https) is None <==> forall|i: int|
            #![trigger states[i]]
            from <= i < states.len() ==> state_problem(states, i, require_https) is None,
        first_state_error(states, from, require_https) matches Some(error) ==> {
            &&& error is State
            &&& from <= error->index < states.len()
            &&& state_problem(states, error->index as int, require_https) == Some(
                error->State_problem,
            )
            &&& forall|i: int|
                #![trigger states[i]]
                from <= i < error->index ==> state_problem(states, i, require_https) is None
        },
    decreases states.len() - from,
{
    if from < states.len() {
        lemma_first_error(states, from + 1, require_https);
        let here = states[from];
    }
}

/// A configuration is accepted if it has a state, its retry delays are in bounds, its states
/// are sound and differ in their names, and its thresholds are numbers. Nothing else counts
/// against it: states may watch the same device.
pub proof fn law_sound_configuration_is_accepted(config: Config)
    requires
        config.states@.len() > 0,
        retries_in_bounds(config),
        names_differ(config.states@),
        forall|i: int|
            0 <= i < config.states@.len() ==> sound(
                #[trigger] config.states@[i],
                config.http.require_https,
            ) && has_numbers(config.states@[i]),
    ensures
        config_error(config) is None,
{
    let states = config.states@;
    let https = config.http.require_https;
    assert(config.states.len() <= usize::MAX);
    assert forall|i: int| #![trigger states[i]] 0 <= i < states.len() implies state_problem(
        states,
        i,
        https,
    ) is None by {
        lemma_state(states, i, https);
    }
    lemma_first_error(states, 0, https);
}

/// A configuration that is accepted has a state, retry delays in bounds, and states that are
/// sound and differ in their names.
pub proof fn law_accepted_configuration_is_sound(config: Config)
    requires
        config_error(config) is None,
    ensures
        config.states@.len() > 0,
        retries_in_bounds(config),
        names_differ(config.states@),
        forall|i: int|
            0 <= i < config.states@.len() ==> sound(
                #[trigger] config.states@[i],
                config.http.require_https,
            ),
{
    let states = config.states@;
    let https = config.http.require_https;
    assert(config.states.len() <= usize::MAX);
    lemma_first_error(states, 0, https);
    assert forall|i: int| 0 <= i < states.len() implies sound(#[trigger] states[i], https) by {
        lemma_state(states, i, https);
    }
    assert forall|i: int, j: int| 0 <= i < j < states.len() implies #[trigger] states[i].name@
        != #[trigger] states[j].name@ by {
        lemma_state(states, j, https);
        let here = states[j];
    }
}

/// Whether a problem is one that a transition has.
pub open spec fn action_fault(
    transition: TransitionConfig,
    problem: ActionProblem,
    require_https: bool,
) -> bool {
    match problem {
        ActionProblem::Missing => transition.url is None && transition.actions@.len() == 0,
        ActionProblem::UrlAndSequence => transition.url is Some && transition.actions@.len() > 0,
        ActionProblem::InvalidUrl => exists|url: Seq<char>| #[trigger]
            calls(transition, url) && scheme_of(url) is None,
        ActionProblem::NotHttps => require_https && exists|url: Seq<char>| #[trigger]
            calls(transition, url) && scheme_of(url) == Some("http"@),
        ActionProblem::UnsupportedScheme => exists|url: Seq<char>| #[trigger]
            calls(transition, url) && scheme_of(url) is Some && scheme_of(url) != Some("http"@)
                && scheme_of(url) != Some("https"@),
    }
}

/// Whether a transition calls a URL.
pub open spec fn calls(transition: TransitionConfig, url: Seq<char>) -> bool {
    match transition.url {
        Some(own) => own@ == url,
        None => exists|i: int|
            0 <= i < transition.actions@.len() && match #[trigger] transition.actions@[i] {
                ActionStepConfig::Request { url: called, .. } => called@ == url,
                ActionStepConfig::WaitForJson { url: called, .. } => called@ == url,
                ActionStepConfig::Delay { .. } => false,
            },
    }
}

/// Whether a problem is one that the state at `index` has.
pub open spec fn state_fault(
    states: Seq<StateConfig>,
    index: int,
    problem: StateProblem,
    require_https: bool,
) -> bool {
    let state = states[index];
    match problem {
        StateProblem::NameEmpty => !says_something(state.name@),
        StateProblem::NameDuplicate => exists|earlier: int|
            0 <= earlier < index && #[trigger] states[earlier].name@ == state.name@,
        StateProblem::SerialEmpty => !says_something(state.serial@),
        StateProblem::SerialInvalid => unsigned_number(state.serial@) is None,
        StateProblem::StaleAfterZero => state.stale_after.nanos == 0,
        StateProblem::Transition { target, problem } => action_fault(
            if target == BinaryState::On {
                state.on
            } else {
                state.off
            },
            problem,
            require_https,
        ),
        StateProblem::SameDirection => from_above(state.on.op) == from_above(state.off.op),
        StateProblem::Overlap => from_above(state.on.op) != from_above(state.off.op) && (
        has_numbers(state) ==> !separate(state.on, state.off)),
    }
}

proof fn lemma_action_fault(transition: TransitionConfig, require_https: bool)
    ensures
        action_problem(transition, require_https) matches Some(problem) ==> action_fault(
            transition,
            problem,
            require_https,
        ),
{
    if action_problem(transition, require_https) is Some {
        if transition.url is Some {
            let url = transition.url->0@;
            lemma_url(url, require_https);
            reveal_with_fuel(step_problem, 2);
            assert(calls(transition, url));
        } else if transition.actions@.len() > 0 {
            let steps = transition.actions@;
            lemma_steps(steps, 0, require_https);
            let i = choose|i: int|
                0 <= i < steps.len() && !(#[trigger] steps[i] is Delay) && Some(
                    step_problem(steps, 0, require_https)->0,
                ) == url_problem(steps[i].target_url()->0, require_https) && forall|j: int|
                    0 <= j < i ==> step_callable(#[trigger] steps[j], require_https);
            let url = steps[i].target_url()->0;
            lemma_url(url, require_https);
            assert(calls(transition, url));
        }
    }
}

/// The rule that a refusal names is broken: what is said to be wrong is wrong, and of the
/// state it names all states before are sound.
pub proof fn law_refusal_is_true(config: Config)
    requires
        config_error(config) is Some,
    ensures
        match config_error(config)->0 {
            ConfigError::NoStates => config.states@.len() == 0,
            ConfigError::RetryInitialZero => config.http.retry_initial.nanos == 0,
            ConfigError::RetryMaxZero => config.http.retry_max.nanos == 0,
            ConfigError::RetryInitialAboveMax => config.http.retry_initial.nanos
                > config.http.retry_max.nanos,
            ConfigError::RetryMaxTooLong => config.http.retry_max.nanos > 5_000_000_000,
            ConfigError::State { index, problem } => {
                &&& index < config.states@.len()
                &&& retries_in_bounds(config)
                &&& state_fault(
                    config.states@,
                    index as int,
                    problem,
                    config.http.require_https,
                )
                &&& forall|i: int|
                    0 <= i < index ==> sound(
                        #[trigger] config.states@[i],
                        config.http.require_https,
                    )
            },
        },
{
    let states = config.states@;
    let https = config.http.require_https;
    assert(config.states.len() <= usize::MAX);
    lemma_first_error(states, 0, https);
    if let ConfigError::State { index, problem } = config_error(config)->0 {
        assert forall|i: int| 0 <= i < index implies sound(#[trigger] states[i], https) by {
            lemma_state(states, i, https);
        }
        lemma_action_fault(states[index as int].on, https);
        lemma_action_fault(states[index as int].off, https);
        lemma_thresholds(states[index as int].on, states[index as int].off);
    }
}

/// Whether the state at `index` has a name, and no earlier one has the same.
pub open spec fn well_named(states: Seq<StateConfig>, index: int) -> bool {
    &&& says_something(states[index].name@)
    &&& forall|earlier: int|
        0 <= earlier < index ==> #[trigger] states[earlier].name@ != states[index].name@
}

/// Whether the serial of a state can be read.
pub open spec fn well_numbered(state: StateConfig) -> bool {
    says_something(state.serial@) && unsigned_number(state.serial@) is Some
}

/// Rules are looked at in order, and the first one that is broken is named: the number of
/// states, the retry delays, and then state by state the name, the serial, the age of the
/// input, the actions for on, those for off, and the thresholds.
pub proof fn law_first_broken_rule_is_named(config: Config)
    requires
        config_error(config) is Some,
    ensures
        config.states@.len() == 0 ==> config_error(config)->0 is NoStates,
        match config_error(config)->0 {
            ConfigError::NoStates => true,
            ConfigError::RetryInitialZero => true,
            ConfigError::RetryMaxZero => config.http.retry_initial.nanos > 0,
            ConfigError::RetryInitialAboveMax => config.http.retry_initial.nanos > 0
                && config.http.retry_max.nanos > 0,
            ConfigError::RetryMaxTooLong => config.http.retry_initial.nanos > 0
                && config.http.retry_initial.nanos <= config.http.retry_max.nanos,
            ConfigError::State { index, problem } => {
                let states = config.states@;
                let at = index as int;
                let state = states[at];
                let https = config.http.require_https;
                match problem {
                    StateProblem::NameEmpty => true,
                    StateProblem::NameDuplicate => says_something(state.name@),
                    StateProblem::SerialEmpty => well_named(states, at),
                    StateProblem::SerialInvalid => well_named(states, at) && says_something(
                        state.serial@,
                    ),
                    StateProblem::StaleAfterZero => well_named(states, at) && well_numbered(state),
                    StateProblem::Transition { target, .. } => well_named(states, at)
                        && well_numbered(state) && state.stale_after.nanos > 0 && (target
                        == BinaryState::Off ==> actionable(state.on, https)),
                    _ => well_named(states, at) && well_numbered(state) && state.stale_after.nanos
                        > 0 && actionable(state.on, https) && actionable(state.off, https),
                }
            },
        },
{
    let states = config.states@;
    let https = config.http.require_https;
    assert(config.states.len() <= usize::MAX);
    lemma_first_error(states, 0, https);
    if let ConfigError::State { index, problem } = config_error(config)->0 {
        let state = states[index as int];
        lemma_actions(state.on, https);
        lemma_actions(state.off, https);
        lemma_threshold_problems(state.on, state.off);
    }
}

proof fn lemma_threshold_problems(on: TransitionConfig, off: TransitionConfig)
    ensures
        threshold_problem(on, off) matches Some(problem) ==> problem == StateProblem::SameDirection
            || problem == StateProblem::Overlap,
{
}

/// Of the steps of a sequence the first one with a URL that may not be used is at fault.
pub proof fn law_first_faulty_step_counts(transition: TransitionConfig, require_https: bool)
    requires
        transition.url is None,
        transition.actions@.len() > 0,
        action_problem(transition, require_https) is Some,
    ensures
        exists|i: int|
            0 <= i < transition.actions@.len() && match #[trigger] transition.actions@[i] {
                ActionStepConfig::Request { url, .. } => scheme_fault(
                    url@,
                    action_problem(transition, require_https)->0,
                    require_https,
                ),
                ActionStepConfig::WaitForJson { url, .. } => scheme_fault(
                    url@,
                    action_problem(transition, require_https)->0,
                    require_https,
                ),
                ActionStepConfig::Delay { .. } => false,
            } && forall|j: int|
                0 <= j < i ==> step_callable(#[trigger] transition.actions@[j], require_https),
{
    let steps = transition.actions@;
    let problem = action_problem(transition, require_https)->0;
    lemma_steps(steps, 0, require_https);
    let i = choose|i: int|
        0 <= i < steps.len() && !(#[trigger] steps[i] is Delay) && Some(
            step_problem(steps, 0, require_https)->0,
        ) == url_problem(steps[i].target_url()->0, require_https) && forall|j: int|
            0 <= j < i ==> step_callable(#[trigger] steps[j], require_https);
    let url = steps[i].target_url()->0;
    lemma_url(url, require_https);
    assert(scheme_fault(url, problem, require_https));
}

/// Whether a problem is the one that a URL has.
pub open spec fn scheme_fault(url: Seq<char>, problem: ActionProblem, require_https: bool) -> bool {
    match problem {
        ActionProblem::Missing => false,
        ActionProblem::UrlAndSequence => false,
        ActionProblem::InvalidUrl => scheme_of(url) is None,
        ActionProblem::NotHttps => scheme_of(url) == Some("http"@) && require_https,
        ActionProblem::UnsupportedScheme => scheme_of(url) is Some && scheme_of(url) != Some(
            "http"@,
        ) && scheme_of(url) != Some("https"@),
    }
}

/// A threshold that is not a number counts as above all numbers, or below all of them if its
/// sign bit is set: a lower bound overlaps with an upper one that lies above it.
pub proof fn law_thresholds_that_are_no_numbers_have_a_place(
    on: TransitionConfig,
    off: TransitionConfig,
)
    requires
        from_above(on.op) != from_above(off.op),
        on.value.nan() != off.value.nan(),
    ensures
        ({
            let lower = if from_above(on.op) {
                off
            } else {
                on
            };
            let upper = if from_above(on.op) {
                on
            } else {
                off
            };
            &&& lower.value.nan() ==> (threshold_problem(on, off) == Some(StateProblem::Overlap)
                <==> lower.value.bits >= 0x8000_0000_0000_0000)
            &&& upper.value.nan() ==> (threshold_problem(on, off) == Some(StateProblem::Overlap)
                <==> upper.value.bits < 0x8000_0000_0000_0000)
            &&& threshold_problem(on, off) is None || threshold_problem(on, off) == Some(
                StateProblem::Overlap,
            )
        }),
{
}

} // verus!
