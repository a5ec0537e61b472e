//! Which file a sample goes to, and what the writer does in which order.

use vstd::prelude::*;

use crate::calendar::{date_is, UtcTime};
use crate::config::RollPeriod;
use crate::metrics::status::{law_written_rows_are_counted, measures, one_more_reading, went_up};
use crate::metrics::{MetricsView, ReadingValue, Series};
use crate::parquet_writer::files::{directory_path, is_window_start, FilePaths};
use crate::parquet_writer::run::{after, lemma_after_is_valid, view_after, WriterEvent};
use crate::parquet_writer::task::{
    commands, complete_steps, idle, interval_steps, lemma_steps_before, roll_steps, store_steps,
    WriterCommand, WriterStep, WriterView,
};
use crate::sample::Sample;

verus! {

/// The seconds of an hour or of a day.
pub open spec fn period(roll: RollPeriod) -> int {
    if roll == RollPeriod::Hourly {
        3600
    } else {
        86400
    }
}

/// Whether a file that started at `start` is the one of the hour or day that `now` falls in.
pub open spec fn belongs(start: UtcTime, now: UtcTime, roll: RollPeriod) -> bool {
    &&& start.nanos == 0
    &&& start.secs == now.secs - now.secs as int % period(roll)
}

/// The steps of an agenda in the order in which they are taken.
pub open spec fn to_come(view: WriterView) -> Seq<WriterStep> {
    view.agenda.reverse()
}

/// A roll window starts at the last full hour, or at the last midnight, of its period.
pub proof fn law_window_starts_at_the_last_boundary(start: UtcTime, now: UtcTime, roll: RollPeriod)
    ensures
        is_window_start(start, now, roll) <==> belongs(start, now, roll),
{
    let secs = now.secs as int;
    let first = start.secs as int;
    if roll == RollPeriod::Hourly {
        assert((secs - secs % 3600) % 3600 == 0);
        if first % 3600 == 0 && first <= secs < first + 3600 {
            assert(first == secs - secs % 3600);
        }
    } else {
        assert((secs - secs % 86400) % 86400 == 0);
        if first % 86400 == 0 && first <= secs < first + 86400 {
            assert(first == secs - secs % 86400);
        }
    }
}

/// A sample that arrives is kept apart until it is accepted. If the open file is not that of
/// its hour or day, the rows that wait are written, the file is closed and renamed and the
/// next one is opened before the sample is accepted. Else a file is opened if none is, and
/// the sample is accepted.
pub proof fn law_sample_waits_for_the_file_of_its_window(
    view: WriterView,
    sample: Sample,
    now: UtcTime,
)
    ensures
        ({
            let next = view.received(sample, now);
            let fits = view.active is None || belongs(
                view.active->0.window_start,
                now,
                view.roll,
            );
            &&& next.arriving == Some(sample)
            &&& next.buffer == view.buffer
            &&& next.active == view.active
            &&& next.roll == view.roll
            &&& next.data_dir == view.data_dir
            &&& fits ==> to_come(next) == seq![
                WriterStep::Open,
                WriterStep::Accept,
                WriterStep::FlushIfFull,
            ]
            &&& !fits ==> to_come(next) == seq![
                WriterStep::Flush,
                WriterStep::Close,
                WriterStep::Rename,
                WriterStep::Open,
                WriterStep::Open,
                WriterStep::Accept,
                WriterStep::FlushIfFull,
            ]
        }),
{
    if view.active is Some {
        law_window_starts_at_the_last_boundary(view.active->0.window_start, now, view.roll);
    }
    let next = view.received(sample, now);
    assert(store_steps().reverse() =~= seq![
        WriterStep::Open,
        WriterStep::Accept,
        WriterStep::FlushIfFull,
    ]);
    assert((store_steps() + roll_steps()).reverse() =~= seq![
        WriterStep::Flush,
        WriterStep::Close,
        WriterStep::Rename,
        WriterStep::Open,
        WriterStep::Open,
        WriterStep::Accept,
        WriterStep::FlushIfFull,
    ]);
}

/// At the end of an interval the rows that wait are written. A file whose hour or day is
/// over is written, closed and renamed first, and the next one is opened.
pub proof fn law_interval_writes_what_waits(view: WriterView, now: UtcTime)
    ensures
        ({
            let next = view.interval_over(now);
            let fits = view.active is None || belongs(
                view.active->0.window_start,
                now,
                view.roll,
            );
            &&& next.arriving == view.arriving
            &&& next.buffer == view.buffer
            &&& next.active == view.active
            &&& next.roll == view.roll
            &&& next.data_dir == view.data_dir
            &&& fits ==> to_come(next) == seq![WriterStep::Flush]
            &&& !fits ==> to_come(next) == seq![
                WriterStep::Flush,
                WriterStep::Close,
                WriterStep::Rename,
                WriterStep::Open,
                WriterStep::Flush,
            ]
        }),
{
    if view.active is Some {
        law_window_starts_at_the_last_boundary(view.active->0.window_start, now, view.roll);
    }
    assert(interval_steps().reverse() =~= seq![WriterStep::Flush]);
    assert((interval_steps() + roll_steps()).reverse() =~= seq![
        WriterStep::Flush,
        WriterStep::Close,
        WriterStep::Rename,
        WriterStep::Open,
        WriterStep::Flush,
    ]);
}

/// At the end the rows that wait are written, and the file is closed and renamed.
pub proof fn law_finishing_completes_the_file(view: WriterView)
    ensures
        ({
            let next = view.finishing();
            &&& next.arriving == view.arriving
            &&& next.buffer == view.buffer
            &&& next.active == view.active
            &&& to_come(next) == seq![WriterStep::Flush, WriterStep::Close, WriterStep::Rename]
        }),
{
    assert(complete_steps().reverse() =~= seq![
        WriterStep::Flush,
        WriterStep::Close,
        WriterStep::Rename,
    ]);
}

/// Working through the agenda stops at the first step that needs a file: rows to write, a
/// file to close, to rename or to open. It writes no rows and touches no file by itself, and
/// when nothing is left to do, no sample is kept apart and no full batch waits.
pub proof fn law_work_stops_where_a_file_is_needed(view: WriterView)
    requires
        view.valid(),
    ensures
        ({
            let next = view.settled();
            &&& next.active == view.active
            &&& next.roll == view.roll
            &&& next.data_dir == view.data_dir
            &&& next.agenda.len() > 0 ==> match next.agenda.last() {
                WriterStep::Flush => next.active is Some && next.buffer.len() > 0,
                WriterStep::Close => next.active is Some && next.buffer.len() == 0,
                WriterStep::Rename => next.active is Some && next.buffer.len() == 0,
                WriterStep::Open => next.active is None,
                WriterStep::FlushIfFull => false,
                WriterStep::Accept => false,
            }
            &&& next.agenda.len() == 0 ==> next.arriving is None && next.buffer.len() < 4096
        }),
    decreases
        view.agenda.len(),
        if view.is_at(WriterStep::FlushIfFull) {
            1int
        } else {
            0int
        },
{
    if view.agenda.len() > 0 && !view.blocked() {
        lemma_steps_before(view);
        match view.agenda.last() {
            WriterStep::FlushIfFull => {
                if view.buffer.len() >= 4096 {
                    let next = WriterView {
                        agenda: view.agenda.drop_last().push(WriterStep::Flush),
                        ..view
                    };
                    assert(next.agenda =~= interval_steps().take(1));
                    law_work_stops_where_a_file_is_needed(next);
                } else {
                    law_work_stops_where_a_file_is_needed(view.stepped());
                }
            },
            WriterStep::Accept => {
                law_work_stops_where_a_file_is_needed(
                    WriterView { buffer: view.waiting(), arriving: None, ..view.stepped() },
                );
            },
            _ => {
                law_work_stops_where_a_file_is_needed(view.stepped());
            },
        }
    }
}

/// The writer after its next step is taken off the agenda.
pub open spec fn without_step(view: WriterView) -> WriterView {
    WriterView { agenda: view.agenda.take(view.agenda.len() - 1), ..view }
}

/// Work waits at rows to write, at a file to close or rename, and where a file is to be
/// opened; steps that have nothing to do are passed. A sample that is accepted joins the end
/// of the buffer, and a full buffer is to be written.
pub proof fn law_work_passes_steps_with_nothing_to_do(view: WriterView)
    requires
        view.valid(),
    ensures
        view.agenda.len() == 0 ==> view.settled() == view,
        view.agenda.len() > 0 ==> match view.agenda.last() {
            WriterStep::Flush => view.settled() == if view.active is Some && view.buffer.len() > 0 {
                view
            } else {
                without_step(view).settled()
            },
            WriterStep::Close => view.settled() == if view.active is Some {
                view
            } else {
                without_step(view).settled()
            },
            WriterStep::Rename => view.settled() == if view.active is Some {
                view
            } else {
                without_step(view).settled()
            },
            WriterStep::Open => view.settled() == if view.active is None {
                view
            } else {
                without_step(view).settled()
            },
            WriterStep::Accept => view.arriving is Some && view.settled() == (WriterView {
                buffer: view.buffer.push(view.arriving->0),
                arriving: None,
                ..without_step(view)
            }).settled(),
            WriterStep::FlushIfFull => view.settled() == if view.buffer.len() < 4096 {
                without_step(view).settled()
            } else {
                (WriterView {
                    agenda: without_step(view).agenda.push(WriterStep::Flush),
                    ..view
                }).settled()
            },
        },
{
    if view.agenda.len() > 0 {
        lemma_steps_before(view);
        assert(view.stepped() == without_step(view));
        if view.agenda.last() == WriterStep::Accept {
            assert(view.waiting() =~= view.buffer.push(view.arriving->0));
        }
    }
}

/// A sample for the open file is only buffered, until as many wait as make a batch: then the
/// batch is written.
pub proof fn law_sample_is_buffered_until_a_batch_is_full(
    view: WriterView,
    sample: Sample,
    now: UtcTime,
)
    requires
        view.valid(),
        view.agenda.len() == 0,
        view.active is Some,
        belongs(view.active->0.window_start, now, view.roll),
    ensures
        ({
            let next = view.received(sample, now).settled();
            &&& next.buffer == view.buffer.push(sample)
            &&& next.arriving is None
            &&& next.active == view.active
            &&& view.buffer.len() + 1 < 4096 ==> next.agenda.len() == 0
            &&& view.buffer.len() + 1 == 4096 ==> to_come(next) == seq![WriterStep::Flush]
        }),
{
    law_window_starts_at_the_last_boundary(view.active->0.window_start, now, view.roll);
    let first = view.received(sample, now);
    assert(first.agenda =~= store_steps());
    let second = first.stepped();
    assert(second.agenda =~= seq![WriterStep::FlushIfFull, WriterStep::Accept]);
    let third = WriterView { buffer: second.waiting(), arriving: None, ..second.stepped() };
    assert(third.agenda =~= seq![WriterStep::FlushIfFull]);
    assert(first.settled() == second.settled());
    assert(second.settled() == third.settled());
    if view.buffer.len() + 1 == 4096 {
        let fourth = WriterView {
            agenda: third.agenda.drop_last().push(WriterStep::Flush),
            ..third
        };
        assert(fourth.agenda =~= seq![WriterStep::Flush]);
        assert(third.settled() == fourth.settled());
        assert(fourth.agenda.reverse() =~= seq![WriterStep::Flush]);
    } else {
        assert(third.settled() == third.stepped().settled());
    }
}

/// What a file operation does to the writer: opening gives it an empty file of that window,
/// a write empties the buffer into the file, a failed write empties it without, closing
/// changes nothing but the agenda, and renaming leaves no file.
pub proof fn law_file_operations_change_the_file(
    view: WriterView,
    window_start: UtcTime,
    paths: FilePaths,
)
    requires
        view.agenda.len() > 0,
    ensures
        view.agenda.last() == WriterStep::Open && view.active is None ==> ({
            let next = view.with_file(window_start, paths);
            &&& next.active is Some
            &&& next.active->0.window_start == window_start
            &&& next.active->0.paths == paths
            &&& next.active->0.rows == 0
            &&& moved_on(view, next)
            &&& next.buffer == view.buffer
        }),
        view.agenda.last() == WriterStep::Flush && view.active is Some ==> ({
            let next = view.batch_written();
            &&& next.active is Some
            &&& next.active->0.window_start == view.active->0.window_start
            &&& next.active->0.paths == view.active->0.paths
            &&& view.active->0.rows + view.buffer.len() <= u64::MAX ==> next.active->0.rows
                == view.active->0.rows + view.buffer.len()
            &&& view.active->0.rows + view.buffer.len() > u64::MAX ==> next.active->0.rows
                == u64::MAX
            &&& moved_on(view, next)
            &&& next.buffer.len() == 0
        }),
        view.agenda.last() == WriterStep::Flush && view.active is Some ==> ({
            let next = view.batch_dropped();
            &&& next.active == view.active
            &&& moved_on(view, next)
            &&& next.buffer.len() == 0
        }),
        view.agenda.last() == WriterStep::Close ==> ({
            let next = view.file_closed();
            &&& next.active == view.active
            &&& moved_on(view, next)
            &&& next.buffer == view.buffer
        }),
        view.agenda.last() == WriterStep::Rename ==> ({
            let next = view.file_renamed();
            &&& next.active is None
            &&& moved_on(view, next)
            &&& next.buffer == view.buffer
        }),
{
}

/// Whether one step is done and nothing is different in what is configured or arriving.
pub open spec fn moved_on(before: WriterView, next: WriterView) -> bool {
    &&& next.agenda == before.agenda.take(before.agenda.len() - 1)
    &&& next.arriving == before.arriving
    &&& next.roll == before.roll
    &&& next.data_dir == before.data_dir
}

/// What is reported without having been asked for changes nothing.
pub proof fn law_unasked_reports_change_nothing(
    view: WriterView,
    metrics: MetricsView,
    window_start: UtcTime,
    paths: FilePaths,
    now: UtcTime,
)
    ensures
        !(view.agenda.len() > 0 && view.agenda.last() == WriterStep::Open && view.active is None)
            ==> view.with_file(window_start, paths) == view && view.metrics_with_file(metrics)
            == metrics,
        !(view.agenda.len() > 0 && view.agenda.last() == WriterStep::Flush && view.active is Some)
            ==> view.batch_written() == view && view.batch_dropped() == view
            && view.metrics_written(metrics, now) == metrics && view.metrics_dropped(metrics)
            == metrics,
        !(view.agenda.len() > 0 && view.agenda.last() == WriterStep::Close) ==> view.file_closed()
            == view,
        !(view.agenda.len() > 0 && view.agenda.last() == WriterStep::Rename)
            ==> view.file_renamed() == view && view.metrics_renamed(metrics) == metrics,
{
}

/// The command is the file operation that the next step needs, on the file that is open; a
/// file to open is that of the present hour or day.
pub proof fn law_command_is_what_the_step_needs(
    view: WriterView,
    command: WriterCommand,
    now: UtcTime,
)
    requires
        commands(view, command, now),
    ensures
        command is Await <==> view.agenda.len() == 0,
        command is Write <==> view.agenda.len() > 0 && view.agenda.last() == WriterStep::Flush,
        command is Close <==> view.agenda.len() > 0 && view.agenda.last() == WriterStep::Close,
        command is Rename <==> view.agenda.len() > 0 && view.agenda.last() == WriterStep::Rename,
        command is Open <==> view.agenda.len() > 0 && view.agenda.last() == WriterStep::Open,
        command matches WriterCommand::Close { inprogress } ==> inprogress@
            == view.active->0.paths.inprogress@,
        command matches WriterCommand::Rename { inprogress, complete, rows } ==> inprogress@
            == view.active->0.paths.inprogress@ && complete@ == view.active->0.paths.complete@
            && rows == view.active->0.rows,
        command matches WriterCommand::Open { window_start, .. } ==> belongs(
            window_start,
            now,
            view.roll,
        ),
        command matches WriterCommand::Open { window_start, directory } ==> forall|
            year: int,
            month: int,
            day: int,
        | #[trigger]
            date_is(window_start.days(), year, month, day) ==> directory@ == directory_path(
                view.data_dir,
                view.roll,
                year,
                month,
                day,
                window_start.spec_hour(),
            ),
{
    if let WriterCommand::Open { window_start, .. } = command {
        law_window_starts_at_the_last_boundary(window_start, now, view.roll);
    }
}

/// Whether an event is work on files, where a file that is opened is that of the hour or day
/// of `now`.
pub open spec fn is_work(event: WriterEvent, now: UtcTime, roll: RollPeriod) -> bool {
    match event {
        WriterEvent::Received { .. } => false,
        WriterEvent::IntervalElapsed { .. } => false,
        WriterEvent::Finished => false,
        WriterEvent::Opened { window_start, .. } => belongs(window_start, now, roll),
        _ => true,
    }
}

/// Whether the open file is that of `now`, or is still to be completed before the sample of
/// that time is accepted.
spec fn on_the_way(view: WriterView, now: UtcTime) -> bool {
    let fits = view.active is Some && belongs(view.active->0.window_start, now, view.roll);
    &&& view.valid()
    &&& view.arriving is None ==> fits
    &&& view.arriving is Some ==> view.agenda[0] == WriterStep::FlushIfFull && view.agenda.len()
        >= 2 && (view.active is None || fits || view.agenda.len() >= 5)
    &&& view.arriving is None ==> view.agenda.len() <= 1 && (view.agenda.len() == 1
        ==> view.agenda[0] != WriterStep::Rename)
}

proof fn lemma_settled_on_the_way(view: WriterView, now: UtcTime)
    requires
        on_the_way(view, now),
    ensures
        on_the_way(view.settled(), now),
        view.settled().roll == view.roll,
    decreases
        view.agenda.len(),
        if view.is_at(WriterStep::FlushIfFull) {
            1int
        } else {
            0int
        },
{
    if view.agenda.len() > 0 && !view.blocked() {
        lemma_steps_before(view);
        match view.agenda.last() {
            WriterStep::FlushIfFull => {
                if view.buffer.len() >= 4096 {
                    let next = WriterView {
                        agenda: view.agenda.drop_last().push(WriterStep::Flush),
                        ..view
                    };
                    assert(next.agenda =~= interval_steps().take(1));
                    lemma_settled_on_the_way(next, now);
                } else {
                    lemma_settled_on_the_way(view.stepped(), now);
                }
            },
            WriterStep::Accept => {
                lemma_storing(view);
                lemma_settled_on_the_way(
                    WriterView { buffer: view.waiting(), arriving: None, ..view.stepped() },
                    now,
                );
            },
            _ => {
                if view.arriving is Some {
                    lemma_storing(view);
                }
                lemma_settled_on_the_way(view.stepped(), now);
            },
        }
    }
}

/// While a sample is kept apart, the agenda is that of storing it.
proof fn lemma_storing(view: WriterView)
    requires
        view.valid(),
        view.arriving is Some,
    ensures
        view.agenda.len() <= 7,
        view.agenda == (store_steps() + roll_steps()).take(view.agenda.len() as int)
            || view.agenda == store_steps(),
        view.agenda.last() == WriterStep::Accept <==> view.agenda.len() == 2,
        view.agenda.len() == 6 <==> view.agenda.last() == WriterStep::Close,
        view.agenda.len() == 5 <==> view.agenda.last() == WriterStep::Rename,
        view.agenda.len() == 7 <==> view.agenda.last() == WriterStep::Flush,
{
    let long = store_steps() + roll_steps();
    assert(long =~= seq![
        WriterStep::FlushIfFull,
        WriterStep::Accept,
        WriterStep::Open,
        WriterStep::Open,
        WriterStep::Rename,
        WriterStep::Close,
        WriterStep::Flush,
    ]);
    assert(view.agenda[0] == WriterStep::FlushIfFull);
    let other = interval_steps() + roll_steps();
    assert(other[0] == WriterStep::Flush);
    assert(complete_steps()[0] == WriterStep::Rename);
    assert(store_steps().take(view.agenda.len() as int) =~= long.take(view.agenda.len() as int)
        || view.agenda.len() > 3);
    assert(view.agenda =~= long.take(view.agenda.len() as int));
}

proof fn lemma_event_on_the_way(view: WriterView, event: WriterEvent, now: UtcTime)
    requires
        on_the_way(view, now),
        is_work(event, now, view.roll),
    ensures
        on_the_way(after(view, event), now),
        after(view, event).roll == view.roll,
{
    lemma_after_is_valid(view, event);
    lemma_settled_on_the_way(view, now);
    if view.agenda.len() > 0 {
        lemma_steps_before(view);
    }
    if view.arriving is Some {
        lemma_storing(view);
    }
}

/// A sample enters the buffer only while the open file is that of the hour or day in which
/// it arrived: whatever work has been done since its arrival, it is either still kept apart,
/// or the open file is the right one.
pub proof fn law_sample_enters_the_file_of_its_window(
    view: WriterView,
    sample: Sample,
    now: UtcTime,
    events: Seq<WriterEvent>,
)
    requires
        view.valid(),
        view.agenda.len() == 0,
        forall|i: int| 0 <= i < events.len() ==> is_work(#[trigger] events[i], now, view.roll),
    ensures
        ({
            let next = view_after(view.received(sample, now), events);
            &&& next.valid()
            &&& next.roll == view.roll
            &&& next.arriving is None ==> next.active is Some && belongs(
                next.active->0.window_start,
                now,
                view.roll,
            )
        }),
{
    lemma_course(view, sample, now, events);
}

proof fn lemma_course(
    view: WriterView,
    sample: Sample,
    now: UtcTime,
    events: Seq<WriterEvent>,
)
    requires
        view.valid(),
        view.agenda.len() == 0,
        forall|i: int| 0 <= i < events.len() ==> is_work(#[trigger] events[i], now, view.roll),
    ensures
        on_the_way(view_after(view.received(sample, now), events), now),
        view_after(view.received(sample, now), events).roll == view.roll,
    decreases events.len(),
{
    let first = view.received(sample, now);
    if events.len() == 0 {
        lemma_after_is_valid(view, WriterEvent::Received { sample, now });
        law_sample_waits_for_the_file_of_its_window(view, sample, now);
        assert(first.agenda[0] == WriterStep::FlushIfFull);
        if view.active is Some {
            law_window_starts_at_the_last_boundary(view.active->0.window_start, now, view.roll);
        }
        assert((store_steps() + roll_steps()).len() == 7);
    } else {
        let earlier = events.drop_last();
        assert forall|i: int| 0 <= i < earlier.len() implies is_work(
            #[trigger] earlier[i],
            now,
            view.roll,
        ) by {
            assert(is_work(events[i], now, view.roll));
        }
        lemma_course(view, sample, now, earlier);
        assert(is_work(events[events.len() - 1], now, view.roll));
        lemma_event_on_the_way(view_after(first, earlier), events.last(), now);
    }
}

/// A new writer has nothing to do and holds nothing.
pub proof fn law_new_writer_is_empty(data_dir: Seq<char>, roll: RollPeriod)
    ensures
        ({
            let view = idle(data_dir, roll);
            &&& view.data_dir == data_dir
            &&& view.roll == roll
            &&& view.active is None
            &&& view.buffer.len() == 0
            &&& view.arriving is None
            &&& view.agenda.len() == 0
        }),
{
}

/// The metrics of the writer: a file that is opened is shown as open and empty, written rows
/// and batches are counted and the rows of the file shown, a failed write is counted, and a
/// renamed file is shown as gone and counted. Nothing else is touched.
pub proof fn law_writer_metrics_follow_the_file(
    view: WriterView,
    metrics: MetricsView,
    now: UtcTime,
)
    requires
        view.valid(),
        view.agenda.len() > 0,
    ensures
        view.agenda.last() == WriterStep::Open && view.active is None ==> ({
            let shown = view.metrics_with_file(metrics);
            &&& shown.parquet_active_file_open == 1
            &&& shown.parquet_active_file_rows == 0
            &&& shown == (MetricsView {
                parquet_active_file_open: 1,
                parquet_active_file_rows: 0,
                ..metrics
            })
        }),
        view.agenda.last() == WriterStep::Flush && view.active is Some ==> ({
            let shown = view.metrics_written(metrics, now);
            let rows = view.active->0.rows + view.buffer.len();
            &&& view.buffer.len() <= u64::MAX ==> went_up(
                metrics.parquet_rows_written,
                shown.parquet_rows_written,
                view.buffer.len() as int,
            )
            &&& went_up(metrics.parquet_batches_written, shown.parquet_batches_written, 1)
            &&& measures(shown.parquet_active_file_rows, rows)
            &&& one_more_reading(
                metrics.readings,
                shown.readings,
                Series::ParquetLastWrite,
                seq![],
                ReadingValue::Integer(now.secs),
            )
            &&& shown == (MetricsView {
                parquet_rows_written: shown.parquet_rows_written,
                parquet_batches_written: shown.parquet_batches_written,
                parquet_active_file_rows: shown.parquet_active_file_rows,
                readings: shown.readings,
                ..metrics
            })
        }),
        view.agenda.last() == WriterStep::Flush && view.active is Some ==> ({
            let shown = view.metrics_dropped(metrics);
            &&& went_up(metrics.parquet_write_errors, shown.parquet_write_errors, 1)
            &&& shown == (MetricsView {
                parquet_write_errors: shown.parquet_write_errors,
                ..metrics
            })
        }),
        view.agenda.last() == WriterStep::Rename ==> ({
            let shown = view.metrics_renamed(metrics);
            &&& went_up(metrics.parquet_rolls, shown.parquet_rolls, 1)
            &&& shown == (MetricsView {
                parquet_active_file_open: 0,
                parquet_active_file_rows: 0,
                parquet_rolls: shown.parquet_rolls,
                ..metrics
            })
        }),
{
    if view.agenda.last() == WriterStep::Flush && view.active is Some {
        law_written_rows_are_counted(
            metrics,
            view.buffer.len() as u64,
            view.rows_with_batch(),
            now,
        );
    }
}

} // verus!
