//! What becomes of the samples over a whole run of the writer.

use vstd::prelude::*;

use crate::calendar::UtcTime;
use crate::config::RollPeriod;
use crate::exposition::increased;
use crate::metrics::samples::wrapped;
use crate::metrics::MetricsView;
use crate::parquet_writer::files::FilePaths;
use crate::parquet_writer::task::{
    complete_steps, idle, interval_steps, law_agenda_keeps_every_sample,
    law_received_sample_waits_last, law_written_batch_waited_longest, lemma_steps_before,
    lemma_whole_plan, roll_steps, store_steps, WriterStep, WriterView, BATCH_ROWS,
};
use crate::sample::Sample;

verus! {

/// Something that happens to the writer.
pub enum WriterEvent {
    /// A sample arrives.
    Received {
        /// The sample.
        sample: Sample,
        /// Time of its arrival.
        now: UtcTime,
    },
    /// A flush interval is over.
    IntervalElapsed {
        /// Time when it is over.
        now: UtcTime,
    },
    /// No more samples will come.
    Finished,
    /// The next file operation is asked for.
    Asked,
    /// A file was opened.
    Opened {
        /// Start of its roll window.
        window_start: UtcTime,
        /// Its two names.
        paths: FilePaths,
    },
    /// A batch was written.
    Written {
        /// Time of the write.
        now: UtcTime,
    },
    /// A batch could not be written.
    WriteFailed,
    /// The file was closed.
    Closed,
    /// The file got its final name.
    Renamed,
}

/// Whether an event may happen now: input is taken only when the agenda is done.
pub open spec fn allowed(view: WriterView, event: WriterEvent) -> bool {
    event is Received || event is IntervalElapsed || event is Finished ==> view.agenda.len() == 0
}

/// The state after an event.
pub open spec fn after(view: WriterView, event: WriterEvent) -> WriterView {
    match event {
        WriterEvent::Received { sample, now } => view.received(sample, now),
        WriterEvent::IntervalElapsed { now } => view.interval_over(now),
        WriterEvent::Finished => view.finishing(),
        WriterEvent::Asked => view.settled(),
        WriterEvent::Opened { window_start, paths } => view.with_file(window_start, paths),
        WriterEvent::Written { .. } => view.batch_written(),
        WriterEvent::WriteFailed => view.batch_dropped(),
        WriterEvent::Closed => view.file_closed(),
        WriterEvent::Renamed => view.file_renamed(),
    }
}

/// The metrics after an event.
pub open spec fn metrics_after(
    view: WriterView,
    metrics: MetricsView,
    event: WriterEvent,
) -> MetricsView {
    match event {
        WriterEvent::Opened { .. } => view.metrics_with_file(metrics),
        WriterEvent::Written { now } => view.metrics_written(metrics, now),
        WriterEvent::WriteFailed => view.metrics_dropped(metrics),
        WriterEvent::Renamed => view.metrics_renamed(metrics),
        _ => metrics,
    }
}

/// A batch that has left the writer.
pub struct Batch {
    /// Its samples, in the order of their arrival.
    pub samples: Seq<Sample>,
    /// Whether it was written. One that could not be written was dropped.
    pub written: bool,
}

/// The state after some events, from a start.
pub open spec fn view_after(start: WriterView, events: Seq<WriterEvent>) -> WriterView
    decreases events.len(),
{
    if events.len() == 0 {
        start
    } else {
        after(view_after(start, events.drop_last()), events.last())
    }
}

/// The metrics after some events. Those of the other tasks are left as they are.
pub open spec fn all_metrics_after(
    start: WriterView,
    metrics: MetricsView,
    events: Seq<WriterEvent>,
) -> MetricsView
    decreases events.len(),
{
    if events.len() == 0 {
        metrics
    } else {
        metrics_after(
            view_after(start, events.drop_last()),
            all_metrics_after(start, metrics, events.drop_last()),
            events.last(),
        )
    }
}

/// Whether each of some events may happen when it does.
pub open spec fn all_allowed(start: WriterView, events: Seq<WriterEvent>) -> bool
    decreases events.len(),
{
    events.len() == 0 || (all_allowed(start, events.drop_last()) && allowed(
        view_after(start, events.drop_last()),
        events.last(),
    ))
}

/// The samples that arrived, in order.
pub open spec fn arrivals(events: Seq<WriterEvent>) -> Seq<Sample>
    decreases events.len(),
{
    if events.len() == 0 {
        Seq::empty()
    } else {
        match events.last() {
            WriterEvent::Received { sample, .. } => arrivals(events.drop_last()).push(sample),
            _ => arrivals(events.drop_last()),
        }
    }
}

/// The batches that were written or dropped, in order.
pub open spec fn batches(start: WriterView, events: Seq<WriterEvent>) -> Seq<Batch>
    decreases events.len(),
{
    if events.len() == 0 {
        Seq::empty()
    } else {
        let view = view_after(start, events.drop_last());
        let earlier = batches(start, events.drop_last());
        let written = events.last() is Written;
        if view.awaits_write() && (written || events.last() is WriteFailed) {
            earlier.push(Batch { samples: view.buffer, written })
        } else {
            earlier
        }
    }
}

/// The samples of some batches, one batch after the other.
pub open spec fn joined(batches: Seq<Batch>) -> Seq<Sample>
    decreases batches.len(),
{
    if batches.len() == 0 {
        Seq::empty()
    } else {
        joined(batches.drop_last()) + batches.last().samples
    }
}

/// Rows in the batches that were written.
pub open spec fn written_rows(batches: Seq<Batch>) -> nat
    decreases batches.len(),
{
    if batches.len() == 0 {
        0
    } else {
        written_rows(batches.drop_last()) + if batches.last().written {
            batches.last().samples.len()
        } else {
            0nat
        }
    }
}

/// Rows in the batches that were dropped.
pub open spec fn dropped_rows(batches: Seq<Batch>) -> nat
    decreases batches.len(),
{
    if batches.len() == 0 {
        0
    } else {
        dropped_rows(batches.drop_last()) + if batches.last().written {
            0nat
        } else {
            batches.last().samples.len()
        }
    }
}

/// How many batches were written, or how many were dropped.
pub open spec fn batch_count(batches: Seq<Batch>, written: bool) -> nat
    decreases batches.len(),
{
    if batches.len() == 0 {
        0
    } else {
        batch_count(batches.drop_last(), written) + if batches.last().written == written {
            1nat
        } else {
            0nat
        }
    }
}

proof fn lemma_settled_is_valid(view: WriterView)
    requires
        view.valid(),
    ensures
        view.settled().valid(),
    decreases
        view.agenda.len(),
        if view.is_at(WriterStep::FlushIfFull) {
            1int
        } else {
            0int
        },
{
    if view.agenda.len() > 0 && !view.blocked() {
        lemma_steps_before(view);
        match view.agenda.last() {
            WriterStep::FlushIfFull => {
                if view.buffer.len() >= BATCH_ROWS {
                    let next = WriterView {
                        agenda: view.agenda.drop_last().push(WriterStep::Flush),
                        ..view
                    };
                    assert(next.agenda =~= interval_steps().take(1));
                    lemma_settled_is_valid(next);
                } else {
                    lemma_settled_is_valid(view.stepped());
                }
            },
            WriterStep::Accept => {
                lemma_settled_is_valid(
                    WriterView { buffer: view.waiting(), arriving: None, ..view.stepped() },
                );
            },
            _ => {
                lemma_settled_is_valid(view.stepped());
            },
        }
    }
}

/// The writer stays in a valid state.
pub(crate) proof fn lemma_after_is_valid(view: WriterView, event: WriterEvent)
    requires
        view.valid(),
        allowed(view, event),
    ensures
        after(view, event).valid(),
{
    if view.agenda.len() > 0 {
        lemma_steps_before(view);
    }
    lemma_settled_is_valid(view);
    lemma_whole_plan(store_steps());
    lemma_whole_plan(interval_steps());
    lemma_whole_plan(complete_steps());
    lemma_whole_plan(store_steps() + roll_steps());
    lemma_whole_plan(interval_steps() + roll_steps());
}

/// An event moves samples on, in order: what leaves the writer waited longest, and what
/// arrives waits last.
proof fn lemma_samples_move_on(view: WriterView, event: WriterEvent)
    requires
        view.valid(),
        allowed(view, event),
    ensures
        ({
            let leaves = view.awaits_write() && (event is Written || event is WriteFailed);
            let rest = after(view, event).waiting();
            &&& leaves ==> view.buffer + rest == view.waiting()
            &&& event matches WriterEvent::Received { sample, .. } ==> rest == view.waiting().push(
                sample,
            )
            &&& !leaves && !(event is Received) ==> rest == view.waiting()
        }),
{
    law_agenda_keeps_every_sample(view);
    law_written_batch_waited_longest(view);
    if let WriterEvent::Received { sample, now } = event {
        law_received_sample_waits_last(view, sample, now);
    }
}

/// Over a whole run, no sample is lost, doubled or out of order: the batches that were
/// written or dropped, one after the other, and then the samples that still wait, are the
/// samples that arrived.
pub proof fn law_every_sample_is_written_dropped_or_waits(
    data_dir: Seq<char>,
    roll: RollPeriod,
    events: Seq<WriterEvent>,
)
    requires
        all_allowed(idle(data_dir, roll), events),
    ensures
        ({
            let start = idle(data_dir, roll);
            let view = view_after(start, events);
            let left = batches(start, events);
            &&& view.valid()
            &&& joined(left) + view.waiting() == arrivals(events)
            &&& written_rows(left) + dropped_rows(left) + view.waiting().len() == arrivals(
                events,
            ).len()
        }),
    decreases events.len(),
{
    let start = idle(data_dir, roll);
    lemma_lengths(batches(start, events));
    if events.len() == 0 {
        assert(start.agenda =~= interval_steps().take(0));
        assert(joined(batches(start, events)) + start.waiting() =~= arrivals(events));
    } else {
        let earlier = events.drop_last();
        let event = events.last();
        let before = view_after(start, earlier);
        law_every_sample_is_written_dropped_or_waits(data_dir, roll, earlier);
        lemma_after_is_valid(before, event);
        lemma_samples_move_on(before, event);
        lemma_joined_after(
            batches(start, earlier),
            batches(start, events),
            before,
            event,
            arrivals(earlier),
        );
    }
}

proof fn lemma_joined_after(
    earlier: Seq<Batch>,
    left: Seq<Batch>,
    before: WriterView,
    event: WriterEvent,
    arrived: Seq<Sample>,
)
    requires
        joined(earlier) + before.waiting() == arrived,
        before.valid(),
        allowed(before, event),
        left == (if before.awaits_write() && (event is Written || event is WriteFailed) {
            earlier.push(Batch { samples: before.buffer, written: event is Written })
        } else {
            earlier
        }),
    ensures
        joined(left) + after(before, event).waiting() == (match event {
            WriterEvent::Received { sample, .. } => arrived.push(sample),
            _ => arrived,
        }),
{
    lemma_samples_move_on(before, event);
    let rest = after(before, event).waiting();
    if before.awaits_write() && (event is Written || event is WriteFailed) {
        assert(left.drop_last() =~= earlier);
        assert(joined(left) + rest =~= joined(earlier) + (before.buffer + rest));
    } else if event is Received {
        assert(joined(left) + rest =~= arrived.push(event->sample));
    }
}

proof fn lemma_lengths(batches: Seq<Batch>)
    ensures
        joined(batches).len() == written_rows(batches) + dropped_rows(batches),
    decreases batches.len(),
{
    if batches.len() > 0 {
        lemma_lengths(batches.drop_last());
    }
}

proof fn lemma_wrapped_sum(total: nat, amount: u64)
    ensures
        increased(wrapped(total), amount) == wrapped(total + amount as nat),
{
}

proof fn lemma_counted_after(
    earlier: Seq<Batch>,
    left: Seq<Batch>,
    before: WriterView,
    shown: MetricsView,
    event: WriterEvent,
)
    requires
        before.valid(),
        left == (if before.awaits_write() && (event is Written || event is WriteFailed) {
            earlier.push(Batch { samples: before.buffer, written: event is Written })
        } else {
            earlier
        }),
    ensures
        ({
            let next = metrics_after(before, shown, event);
            let rows = (written_rows(left) - written_rows(earlier)) as u64;
            let count = (batch_count(left, true) - batch_count(earlier, true)) as u64;
            let errors = (batch_count(left, false) - batch_count(earlier, false)) as u64;
            &&& written_rows(left) == written_rows(earlier) + rows
            &&& batch_count(left, true) == batch_count(earlier, true) + count
            &&& batch_count(left, false) == batch_count(earlier, false) + errors
            &&& next.parquet_rows_written == increased(shown.parquet_rows_written, rows)
            &&& next.parquet_batches_written == increased(shown.parquet_batches_written, count)
            &&& next.parquet_write_errors == increased(shown.parquet_write_errors, errors)
        }),
{
    if before.awaits_write() && (event is Written || event is WriteFailed) {
        assert(left.drop_last() =~= earlier);
        assert(left.last().samples == before.buffer);
    }
}

/// Over a whole run, the metrics count the rows and the batches that were written, and the
/// batches that were dropped.
pub proof fn law_metrics_count_what_left(
    data_dir: Seq<char>,
    roll: RollPeriod,
    metrics: MetricsView,
    events: Seq<WriterEvent>,
)
    requires
        all_allowed(idle(data_dir, roll), events),
    ensures
        ({
            let left = batches(idle(data_dir, roll), events);
            let shown = all_metrics_after(idle(data_dir, roll), metrics, events);
            &&& shown.parquet_rows_written == wrapped(
                metrics.parquet_rows_written as nat + written_rows(left),
            )
            &&& shown.parquet_batches_written == wrapped(
                metrics.parquet_batches_written as nat + batch_count(left, true),
            )
            &&& shown.parquet_write_errors == wrapped(
                metrics.parquet_write_errors as nat + batch_count(left, false),
            )
        }),
    decreases events.len(),
{
    let start = idle(data_dir, roll);
    if events.len() > 0 {
        let earlier = events.drop_last();
        let fewer = batches(start, earlier);
        let left = batches(start, events);
        law_metrics_count_what_left(data_dir, roll, metrics, earlier);
        law_every_sample_is_written_dropped_or_waits(data_dir, roll, earlier);
        lemma_counted_after(
            fewer,
            left,
            view_after(start, earlier),
            all_metrics_after(start, metrics, earlier),
            events.last(),
        );
        lemma_wrapped_sum(
            metrics.parquet_rows_written as nat + written_rows(fewer),
            (written_rows(left) - written_rows(fewer)) as u64,
        );
        lemma_wrapped_sum(
            metrics.parquet_batches_written as nat + batch_count(fewer, true),
            (batch_count(left, true) - batch_count(fewer, true)) as u64,
        );
        lemma_wrapped_sum(
            metrics.parquet_write_errors as nat + batch_count(fewer, false),
            (batch_count(left, false) - batch_count(fewer, false)) as u64,
        );
    }
}

/// When a run has come to its end, with the agenda done and the last file completed, every
/// sample that arrived was written or dropped.
pub proof fn law_completed_run_leaves_no_sample(
    data_dir: Seq<char>,
    roll: RollPeriod,
    events: Seq<WriterEvent>,
)
    requires
        all_allowed(idle(data_dir, roll), events),
        view_after(idle(data_dir, roll), events).agenda.len() == 0,
        view_after(idle(data_dir, roll), events).active is None,
    ensures
        joined(batches(idle(data_dir, roll), events)) == arrivals(events),
{
    law_every_sample_is_written_dropped_or_waits(data_dir, roll, events);
    let left = batches(idle(data_dir, roll), events);
    let view = view_after(idle(data_dir, roll), events);
    assert(joined(left) + view.waiting() =~= joined(left));
}

} // verus!
