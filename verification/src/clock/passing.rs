//! How readings and spans fit together.

use vstd::prelude::*;

use crate::clock::{later, nanos_since, Duration, Instant};

verus! {

/// From one reading to the one a span later it takes that span, and no time from there back.
pub proof fn law_span_passes_until_the_later_reading(now: Instant, span: Duration)
    requires
        now.nanos + span.nanos <= u128::MAX,
    ensures
        later(now, span).nanos == now.nanos + span.nanos,
        nanos_since(later(now, span), now) == span.nanos,
        nanos_since(now, later(now, span)) == 0,
{
}

/// The time between two readings is the same whatever lies in between, and none is ever
/// negative.
pub proof fn law_spans_add_up(first: Instant, second: Instant, third: Instant)
    ensures
        nanos_since(second, first) >= 0,
        first.nanos <= second.nanos <= third.nanos ==> nanos_since(third, first) == nanos_since(
            third,
            second,
        ) + nanos_since(second, first),
        nanos_since(second, first) == 0 <==> second.nanos <= first.nanos,
{
}

} // verus!
