//! Processing of scanner observations into metrics and threshold states.

use vstd::prelude::*;

use crate::calendar::UtcTime;
use crate::clock::Instant;
use crate::config::HttpConfig;
use crate::exposition::increased;
use crate::metrics::samples::{sampled_all, wrapped};
use crate::metrics::{Metrics, MetricsView};
use crate::sample::Sample;
use crate::state::engine::{
    all_advanced_metrics, observed_metrics, observes, resolved_metrics, DueAction, StateEngine,
};
use crate::state::machine::{ActionOutcome, RuntimeState};

pub mod tally;

verus! {

/// Samples that may wait for processing.
pub const SAMPLE_QUEUE_CAPACITY: usize = 16_384;

/// Samples that may wait to be stored.
pub const WRITER_QUEUE_CAPACITY: usize = 16_384;

/// Seconds between two status reports.
pub const STATUS_INTERVAL_SECS: u64 = 30;

/// Counts of processed observations.
#[derive(Clone, Copy, Debug, PartialEq, Eq, Structural)]
pub struct SampleProcessor {
    /// Observations processed so far.
    pub processed: u64,
    /// Observations processed when they were last reported.
    pub reported: u64,
}

/// What a status report says.
#[derive(Clone, Copy, Debug, PartialEq, Eq, Structural)]
pub enum StatusReport {
    /// No advertisement has been processed yet.
    NothingYet,
    /// Advertisements were processed since the last report; this is the total.
    Processed(u64),
    /// No advertisement was processed since the last report; this is the total.
    NothingNew(u64),
}

/// A count after one more, which stops at the largest number.
pub open spec fn one_more(count: u64) -> u64 {
    if count == u64::MAX {
        u64::MAX
    } else {
        (count + 1) as u64
    }
}

/// The metrics after an observation was offered to the writer queue. One that did not fit is
/// counted.
pub open spec fn offered(metrics: MetricsView, accepted: bool) -> MetricsView {
    if accepted {
        metrics
    } else {
        MetricsView {
            writer_dropped_observations: increased(metrics.writer_dropped_observations, 1),
            ..metrics
        }
    }
}

/// What a status report says, and the counts once it is made.
pub open spec fn reporting(processor: SampleProcessor) -> (SampleProcessor, StatusReport) {
    let noted = SampleProcessor { reported: processor.processed, ..processor };
    if processor.processed == 0 {
        (processor, StatusReport::NothingYet)
    } else if processor.processed != processor.reported {
        (noted, StatusReport::Processed(processor.processed))
    } else {
        (noted, StatusReport::NothingNew(processor.processed))
    }
}

impl SampleProcessor {
    /// Starts with nothing processed.
    pub fn new() -> (processor: Self)
        ensures
            processor == (SampleProcessor { processed: 0, reported: 0 }),
    {
        SampleProcessor { processed: 0, reported: 0 }
    }

    /// Processes one observation while the daemon runs. Returns whether it was the first.
    pub fn process(
        &mut self,
        sample: &Sample,
        engine: &mut StateEngine,
        metrics: &mut Metrics,
        now: Instant,
    ) -> (first: bool)
        requires
            old(engine).valid(),
        ensures
            first == (old(self).processed == 0),
            *final(self) == (SampleProcessor {
                processed: one_more(old(self).processed),
                ..*old(self)
            }),
            final(engine).valid(),
            final(engine).http == old(engine).http,
            final(engine).states.len() == old(engine).states.len(),
            forall|i: int|
                0 <= i < final(engine).states.len() ==> observes(
                    old(engine).states[i],
                    #[trigger] final(engine).states[i],
                    *sample,
                    now,
                ),
            final(metrics)@ == observed_metrics(
                old(metrics)@.sampled(*sample),
                final(engine).states@,
                *sample,
            ),
    {
        let first: bool = self.processed == 0;
        self.processed = self.processed.saturating_add(1);
        observe(sample, engine, metrics, now);
        first
    }

    /// Decides what a status report says and takes note of it.
    pub fn report(&mut self) -> (report: StatusReport)
        ensures
            (*final(self), report) == reporting(*old(self)),
    {
        if self.processed == 0 {
            StatusReport::NothingYet
        } else if self.processed != self.reported {
            self.reported = self.processed;
            StatusReport::Processed(self.processed)
        } else {
            StatusReport::NothingNew(self.processed)
        }
    }
}

/// Takes note whether the writer queue had room for an observation. One that did not fit is
/// dropped and counted.
pub fn writer_enqueue_attempted(metrics: &mut Metrics, accepted: bool)
    ensures
        final(metrics)@ == offered(old(metrics)@, accepted),
{
    if !accepted {
        metrics.observe_writer_dropped();
    }
}

/// Updates metrics and threshold states with one observation. One that was still queued at
/// shutdown is not counted as processed; like any other it is then offered to the writer
/// queue.
pub fn observe(sample: &Sample, engine: &mut StateEngine, metrics: &mut Metrics, now: Instant)
    requires
        old(engine).valid(),
    ensures
        final(engine).valid(),
        final(engine).http == old(engine).http,
        final(engine).states.len() == old(engine).states.len(),
        forall|i: int|
            0 <= i < final(engine).states.len() ==> observes(
                old(engine).states[i],
                #[trigger] final(engine).states[i],
                *sample,
                now,
            ),
        final(metrics)@ == observed_metrics(
            old(metrics)@.sampled(*sample),
            final(engine).states@,
            *sample,
        ),
{
    metrics.observe_sample(sample);
    engine.observe_sample(sample, metrics, now);
}

/// An observation that was taken from the queue: when, and whether the writer queue had room
/// for it.
pub struct Taken {
    /// The observation.
    pub sample: Sample,
    /// When it was processed.
    pub at: Instant,
    /// Whether the writer queue took it.
    pub accepted: bool,
}

/// The observations in the order in which they were taken.
pub open spec fn observations(taken: Seq<Taken>) -> Seq<Sample> {
    taken.map_values(|one: Taken| one.sample)
}

/// The observations that the writer queue took, in order.
pub open spec fn handed_on(taken: Seq<Taken>) -> Seq<Sample>
    decreases taken.len(),
{
    if taken.len() == 0 {
        Seq::empty()
    } else if taken.last().accepted {
        handed_on(taken.drop_last()).push(taken.last().sample)
    } else {
        handed_on(taken.drop_last())
    }
}

/// How many observations the writer queue did not take.
pub open spec fn left_out(taken: Seq<Taken>) -> nat
    decreases taken.len(),
{
    if taken.len() == 0 {
        0
    } else {
        left_out(taken.drop_last()) + if taken.last().accepted {
            0nat
        } else {
            1nat
        }
    }
}

/// The states and metrics at one time.
pub struct Moment {
    /// The states.
    pub states: Seq<RuntimeState>,
    /// The metrics.
    pub metrics: MetricsView,
}

/// Whether taking an observation leads from one moment to another: the metrics and every
/// state take it in, and then it is offered to the writer queue.
pub open spec fn leads_to(before: Moment, after: Moment, one: Taken) -> bool {
    &&& after.states.len() == before.states.len()
    &&& forall|i: int|
        0 <= i < after.states.len() ==> observes(
            before.states[i],
            #[trigger] after.states[i],
            one.sample,
            one.at,
        )
    &&& after.metrics == offered(
        observed_metrics(before.metrics.sampled(one.sample), after.states, one.sample),
        one.accepted,
    )
}

/// Whether two views agree in all that received observations are counted and identified by.
pub open spec fn same_received(a: MetricsView, b: MetricsView) -> bool {
    &&& a.observations_received == b.observations_received
    &&& a.devices == b.devices
    &&& a.devices_seen == b.devices_seen
    &&& a.device_info == b.device_info
    &&& a.device_observations_received == b.device_observations_received
}

/// Whether two views agree on the observations that were received and dropped.
pub open spec fn same_tally(a: MetricsView, b: MetricsView) -> bool {
    &&& same_received(a, b)
    &&& a.writer_dropped_observations == b.writer_dropped_observations
}

/// Whether observations were taken one after the other. What other tasks did in between
/// left the tally as it was.
pub open spec fn taken_in_turn(
    befores: Seq<Moment>,
    afters: Seq<Moment>,
    taken: Seq<Taken>,
) -> bool {
    &&& befores.len() == taken.len()
    &&& afters.len() == taken.len()
    &&& forall|i: int| 0 <= i < taken.len() ==> leads_to(befores[i], afters[i], #[trigger] taken[i])
    &&& forall|i: int|
        0 < i < taken.len() ==> same_tally(
            (#[trigger] befores[i]).metrics,
            afters[i - 1].metrics,
        )
}

proof fn lemma_observing_keeps_tally(
    metrics: MetricsView,
    states: Seq<RuntimeState>,
    sample: Sample,
)
    ensures
        same_tally(observed_metrics(metrics, states, sample), metrics),
    decreases states.len(),
{
    if states.len() > 0 {
        lemma_observing_keeps_tally(metrics, states.drop_last(), sample);
    }
}

proof fn lemma_advancing_keeps_tally(
    metrics: MetricsView,
    states: Seq<RuntimeState>,
    http: HttpConfig,
    now: Instant,
)
    ensures
        same_tally(all_advanced_metrics(metrics, states, http, now), metrics),
    decreases states.len(),
{
    if states.len() > 0 {
        lemma_advancing_keeps_tally(metrics, states.drop_last(), http, now);
    }
}

/// Ticking the states, recording an attempt and writing rows leave the tally of observations
/// as it is.
pub proof fn law_other_tasks_leave_the_tally(
    metrics: MetricsView,
    states: Seq<RuntimeState>,
    state: RuntimeState,
    action: DueAction,
    outcome: ActionOutcome,
    http: HttpConfig,
    now: Instant,
    rows: u64,
    active_file_rows: u64,
    written_at: UtcTime,
)
    ensures
        same_tally(all_advanced_metrics(metrics, states, http, now), metrics),
        same_tally(resolved_metrics(metrics, state, action, outcome, http, now), metrics),
        same_tally(metrics.rows_written(rows, active_file_rows, written_at), metrics),
{
    lemma_advancing_keeps_tally(metrics, states, http, now);
}

/// Of all observations taken, those handed to the writer and those counted as dropped make
/// up the number, and each was counted by the metrics once, in order, whether or not the
/// writer queue had room for it.
pub proof fn law_every_observation_is_handed_on_or_dropped(
    befores: Seq<Moment>,
    afters: Seq<Moment>,
    taken: Seq<Taken>,
)
    requires
        taken_in_turn(befores, afters, taken),
        taken.len() > 0,
    ensures
        handed_on(taken).len() + left_out(taken) == taken.len(),
        ({
            let first = befores.first().metrics;
            let last = afters.last().metrics;
            let all = sampled_all(first, observations(taken));
            &&& last.writer_dropped_observations == wrapped(
                first.writer_dropped_observations as nat + left_out(taken),
            )
            &&& last.observations_received == wrapped(
                first.observations_received as nat + taken.len(),
            )
            &&& same_received(last, all)
        }),
    decreases taken.len(),
{
    let first = befores.first().metrics;
    let earlier = taken.drop_last();
    let last = taken.len() - 1;
    assert(leads_to(befores[last], afters[last], taken[last]));
    lemma_observations(taken);
    lemma_wrapped_increased(first.writer_dropped_observations as nat + left_out(earlier));
    lemma_wrapped_increased(first.observations_received as nat + earlier.len());
    let reference = sampled_all(first, observations(earlier));
    if taken.len() == 1 {
        assert(reference == first);
        assert(left_out(earlier) == 0);
        assert(handed_on(earlier).len() == 0);
    } else {
        lemma_earlier_in_turn(befores, afters, taken);
        law_every_observation_is_handed_on_or_dropped(
            befores.drop_last(),
            afters.drop_last(),
            earlier,
        );
        assert(befores.drop_last().first() == befores.first());
        assert(afters.drop_last().last() == afters[last - 1]);
        assert(same_tally(befores[last].metrics, afters[last - 1].metrics));
    }
    lemma_one_taken(befores[last], afters[last], taken[last], reference);
}

proof fn lemma_wrapped_increased(total: nat)
    ensures
        increased(wrapped(total), 1) == wrapped(total + 1),
{
}

proof fn lemma_observations(taken: Seq<Taken>)
    requires
        taken.len() > 0,
    ensures
        observations(taken).drop_last() == observations(taken.drop_last()),
        observations(taken).last() == taken.last().sample,
        observations(taken).len() == taken.len(),
{
    assert(observations(taken).drop_last() =~= observations(taken.drop_last()));
}

proof fn lemma_earlier_in_turn(befores: Seq<Moment>, afters: Seq<Moment>, taken: Seq<Taken>)
    requires
        taken_in_turn(befores, afters, taken),
        taken.len() > 0,
    ensures
        taken_in_turn(befores.drop_last(), afters.drop_last(), taken.drop_last()),
{
    let earlier = taken.drop_last();
    assert forall|i: int| 0 <= i < earlier.len() implies leads_to(
        befores.drop_last()[i],
        afters.drop_last()[i],
        #[trigger] earlier[i],
    ) by {
        assert(leads_to(befores[i], afters[i], taken[i]));
    }
    assert forall|i: int| 0 < i < earlier.len() implies same_tally(
        (#[trigger] befores.drop_last()[i]).metrics,
        afters.drop_last()[i - 1].metrics,
    ) by {
        assert(same_tally(befores[i].metrics, afters[i - 1].metrics));
    }
}

proof fn lemma_one_taken(before: Moment, after: Moment, one: Taken, reference: MetricsView)
    requires
        leads_to(before, after, one),
        same_received(before.metrics, reference),
    ensures
        same_received(after.metrics, reference.sampled(one.sample)),
        after.metrics.observations_received == increased(before.metrics.observations_received, 1),
        after.metrics.writer_dropped_observations == (if one.accepted {
            before.metrics.writer_dropped_observations
        } else {
            increased(before.metrics.writer_dropped_observations, 1)
        }),
{
    lemma_observing_keeps_tally(before.metrics.sampled(one.sample), after.states, one.sample);
}

} // verus!
