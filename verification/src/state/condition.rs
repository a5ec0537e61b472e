//! Numeric threshold comparisons.

use vstd::prelude::*;

use crate::config::{
    is_inclusive, threshold_problem, ComparisonOp, StateProblem, TransitionConfig,
};
use crate::float::Double;

verus! {

/// Whether `actual` satisfies `op threshold`. What is not a number satisfies nothing
/// and nothing is satisfied against it.
pub open spec fn holds(op: ComparisonOp, actual: Double, threshold: Double) -> bool {
    &&& !actual.nan()
    &&& !threshold.nan()
    &&& match op {
        ComparisonOp::Lt => actual.value() < threshold.value(),
        ComparisonOp::Le => actual.value() <= threshold.value(),
        ComparisonOp::Gt => actual.value() > threshold.value(),
        ComparisonOp::Ge => actual.value() >= threshold.value(),
    }
}

/// Returns whether `actual` satisfies `op threshold`.
pub fn matches(op: ComparisonOp, actual: Double, threshold: Double) -> (answer: bool)
    ensures
        answer == holds(op, actual, threshold),
{
    match op {
        ComparisonOp::Lt => actual.less(threshold),
        ComparisonOp::Le => actual.less_or_equal(threshold),
        ComparisonOp::Gt => threshold.less(actual),
        ComparisonOp::Ge => threshold.less_or_equal(actual),
    }
}

/// Whether a value satisfies the threshold of a transition.
pub open spec fn satisfies(transition: TransitionConfig, value: Double) -> bool {
    holds(transition.op, value, transition.value)
}

/// Comparisons are those of numbers: a value meets a threshold exactly when it lies on the
/// side that the operator names, where `<=` and `>=` accept the threshold itself and the
/// others do not. For two numbers exactly one of `<` and `>=`, and one of `<=` and `>`,
/// holds. What is not a number meets nothing and is met by nothing.
pub proof fn law_comparisons_are_those_of_numbers(actual: Double, threshold: Double)
    ensures
        ({
            let lt = holds(ComparisonOp::Lt, actual, threshold);
            let le = holds(ComparisonOp::Le, actual, threshold);
            let gt = holds(ComparisonOp::Gt, actual, threshold);
            let ge = holds(ComparisonOp::Ge, actual, threshold);
            &&& actual.nan() || threshold.nan() ==> !lt && !le && !gt && !ge
            &&& !actual.nan() && !threshold.nan() ==> {
                &&& lt == (actual.value() < threshold.value())
                &&& gt == (threshold.value() < actual.value())
                &&& lt != ge
                &&& le != gt
                &&& le && ge <==> actual.value() == threshold.value()
            }
            &&& lt == holds(ComparisonOp::Gt, threshold, actual)
            &&& le == holds(ComparisonOp::Ge, threshold, actual)
        }),
{
}

/// A transition is met by the values that its own operator and threshold accept.
pub proof fn law_transition_compares_with_its_threshold(transition: TransitionConfig, value: Double)
    ensures
        transition.op == ComparisonOp::Lt ==> satisfies(transition, value) == holds(
            ComparisonOp::Lt,
            value,
            transition.value,
        ),
        transition.op == ComparisonOp::Le ==> satisfies(transition, value) == holds(
            ComparisonOp::Le,
            value,
            transition.value,
        ),
        transition.op == ComparisonOp::Gt ==> satisfies(transition, value) == holds(
            ComparisonOp::Gt,
            value,
            transition.value,
        ),
        transition.op == ComparisonOp::Ge ==> satisfies(transition, value) == holds(
            ComparisonOp::Ge,
            value,
            transition.value,
        ),
{
}

/// No value satisfies both thresholds of a state that passes validation.
pub proof fn law_valid_thresholds_exclude_each_other(
    on: TransitionConfig,
    off: TransitionConfig,
    value: Double,
)
    requires
        threshold_problem(on, off) is None,
    ensures
        !(satisfies(on, value) && satisfies(off, value)),
{
}

/// Thresholds that are refused because they overlap are met by one value, namely one of
/// them, if they are numbers and one of them accepts itself.
pub proof fn law_overlapping_thresholds_share_a_value(on: TransitionConfig, off: TransitionConfig)
    requires
        threshold_problem(on, off) == Some(StateProblem::Overlap),
        !on.value.nan(),
        !off.value.nan(),
        is_inclusive(on.op) || is_inclusive(off.op),
    ensures
        (satisfies(on, on.value) && satisfies(off, on.value)) || (satisfies(on, off.value)
            && satisfies(off, off.value)),
{
}

} // verus!
