//! The work of the writer: what is to be done with files, and in which order.
//!
//! Each sample and each flush interval gives the task a list of steps. The task works
//! through them and asks for the file operations that they need. Whoever holds the files
//! carries each one out and reports back. A file that cannot be opened, closed or renamed
//! ends the work; rows that cannot be written are counted and dropped.

use vstd::prelude::*;

use crate::calendar::{date_is, UtcTime};
use crate::config::RollPeriod;
use crate::exposition::increased;
use crate::metrics::{bool_number, Metrics, MetricsView};
use crate::parquet_writer::files::{
    directory_path, is_window_start, law_window_start_is_unique, partition_directory,
    roll_window_start, FilePaths,
};
use crate::sample::Sample;

verus! {

/// Number of rows after which the buffered samples are written.
pub const BATCH_ROWS: usize = 4096;

/// Seconds after which the buffered samples are written.
pub const FLUSH_INTERVAL_SECS: u64 = 10;

/// Runtime configuration for the Parquet writer task.
///
/// The public CLI intentionally exposes only the data directory and file roll
/// period. Batch sizing and flush interval are fixed constants for v1.
#[derive(Debug)]
pub struct ParquetWriterConfig {
    /// Directory that holds the sample files.
    pub data_dir: String,
    /// Time that one file covers.
    pub roll: RollPeriod,
}

impl ParquetWriterConfig {
    /// Creates writer configuration from the selected data directory and roll period.
    pub fn new(data_dir: String, roll: RollPeriod) -> (config: Self)
        ensures
            config.data_dir == data_dir,
            config.roll == roll,
    {
        ParquetWriterConfig { data_dir, roll }
    }
}

/// The file that is written.
#[derive(Debug)]
pub struct ActiveFile {
    /// Start of the roll window that the file belongs to.
    pub window_start: UtcTime,
    /// The two names of the file.
    pub paths: FilePaths,
    /// Rows written so far.
    pub rows: u64,
}

/// One step of the work.
#[derive(Clone, Copy, Debug, PartialEq, Eq, Structural)]
pub enum WriterStep {
    /// Write the buffered samples, if there are any and a file is open.
    Flush,
    /// Write the buffered samples, if there are enough for a batch.
    FlushIfFull,
    /// Close the file, if one is open.
    Close,
    /// Give the closed file its final name.
    Rename,
    /// Open a file, if none is open.
    Open,
    /// Put the sample that has arrived in the buffer.
    Accept,
}

/// A file operation, or none.
#[derive(Debug)]
pub enum WriterCommand {
    /// Wait for the next sample or flush interval: there is nothing to do.
    Await,
    /// Open a file of this roll window in this directory.
    Open {
        /// Directory of the file.
        directory: String,
        /// Start of the roll window.
        window_start: UtcTime,
    },
    /// Write the buffered samples.
    Write,
    /// Close the file of this path.
    Close {
        /// Path of the file.
        inprogress: String,
    },
    /// Rename a file.
    Rename {
        /// Present path.
        inprogress: String,
        /// Final path.
        complete: String,
        /// Rows written to the file.
        rows: u64,
    },
}

/// The state of the writer.
#[derive(Debug)]
pub struct WriterTask {
    config: ParquetWriterConfig,
    active: Option<ActiveFile>,
    buffer: Vec<Sample>,
    arriving: Option<Sample>,
    agenda: Vec<WriterStep>,
}

/// The state of the writer, as its contracts see it.
#[verifier::ext_equal]
pub struct WriterView {
    /// Directory that holds the sample files.
    pub data_dir: Seq<char>,
    /// Time that one file covers.
    pub roll: RollPeriod,
    /// The file that is written, if one is open.
    pub active: Option<ActiveFile>,
    /// Samples that wait to be written, in the order of their arrival.
    pub buffer: Seq<Sample>,
    /// A sample that has arrived and is not yet in the buffer.
    pub arriving: Option<Sample>,
    /// Steps still to be taken. The last one comes first.
    pub agenda: Seq<WriterStep>,
}

impl View for WriterTask {
    type V = WriterView;

    closed spec fn view(&self) -> WriterView {
        WriterView {
            data_dir: self.config.data_dir@,
            roll: self.config.roll,
            active: self.active,
            buffer: self.buffer@,
            arriving: self.arriving,
            agenda: self.agenda@,
        }
    }
}

/// The steps that store a sample.
pub open spec fn store_steps() -> Seq<WriterStep> {
    seq![WriterStep::FlushIfFull, WriterStep::Accept, WriterStep::Open]
}

/// The steps of a flush interval.
pub open spec fn interval_steps() -> Seq<WriterStep> {
    seq![WriterStep::Flush]
}

/// The steps that complete a file.
pub open spec fn complete_steps() -> Seq<WriterStep> {
    seq![WriterStep::Rename, WriterStep::Close, WriterStep::Flush]
}

/// The steps that complete a file and open the next one.
pub open spec fn roll_steps() -> Seq<WriterStep> {
    seq![WriterStep::Open, WriterStep::Rename, WriterStep::Close, WriterStep::Flush]
}

/// Whether the steps of an agenda are the rest of a plan.
pub open spec fn rest_of(agenda: Seq<WriterStep>, plan: Seq<WriterStep>) -> bool {
    agenda.len() <= plan.len() && agenda == plan.take(agenda.len() as int)
}

impl WriterView {
    /// Whether the next step is this one.
    pub open spec fn is_at(self, step: WriterStep) -> bool {
        self.agenda.len() > 0 && self.agenda.last() == step
    }

    /// Whether the agenda is the rest of a plan, no more samples are buffered than a
    /// batch takes, and a file is open whenever some are.
    pub open spec fn valid(self) -> bool {
        &&& rest_of(self.agenda, store_steps()) || rest_of(self.agenda, interval_steps())
            || rest_of(self.agenda, complete_steps()) || rest_of(
            self.agenda,
            store_steps() + roll_steps(),
        ) || rest_of(self.agenda, interval_steps() + roll_steps())
        &&& self.active is None ==> self.buffer.len() == 0
        &&& self.arriving is Some <==> self.agenda.len() >= 2 && self.agenda[0]
            == WriterStep::FlushIfFull
        &&& self.buffer.len() < BATCH_ROWS || (self.buffer.len() == BATCH_ROWS && (self.is_at(
            WriterStep::Flush,
        ) || self.is_at(WriterStep::FlushIfFull)))
        &&& self.is_at(WriterStep::Accept) ==> self.active is Some
        &&& self.is_at(WriterStep::Close) || self.is_at(WriterStep::Rename) ==> self.buffer.len()
            == 0
    }

    /// The state after the next step is done.
    pub open spec fn stepped(self) -> WriterView {
        WriterView { agenda: self.agenda.drop_last(), ..self }
    }

    /// Samples that have arrived and were not written, in the order of their arrival.
    pub open spec fn waiting(self) -> Seq<Sample> {
        match self.arriving {
            Some(sample) => self.buffer.push(sample),
            None => self.buffer,
        }
    }

    /// Whether the next step needs a file operation.
    pub open spec fn blocked(self) -> bool {
        self.agenda.len() > 0 && match self.agenda.last() {
            WriterStep::Flush => self.active is Some && self.buffer.len() > 0,
            WriterStep::FlushIfFull => false,
            WriterStep::Close => self.active is Some,
            WriterStep::Rename => self.active is Some,
            WriterStep::Open => self.active is None,
            WriterStep::Accept => false,
        }
    }

    /// The state once every step that needs no file operation has been taken, up to the
    /// first one that does.
    pub open spec fn settled(self) -> WriterView
        decreases
            self.agenda.len(),
            if self.is_at(WriterStep::FlushIfFull) {
                1int
            } else {
                0int
            },
    {
        if self.agenda.len() == 0 || self.blocked() {
            self
        } else {
            match self.agenda.last() {
                WriterStep::FlushIfFull => if self.buffer.len() >= BATCH_ROWS {
                    WriterView {
                        agenda: self.agenda.drop_last().push(WriterStep::Flush),
                        ..self
                    }.settled()
                } else {
                    self.stepped().settled()
                },
                WriterStep::Accept => WriterView {
                    buffer: self.waiting(),
                    arriving: None,
                    ..self.stepped()
                }.settled(),
                _ => self.stepped().settled(),
            }
        }
    }

    /// Whether a file is open that belongs to an earlier roll window.
    pub open spec fn outlived(self, now: UtcTime) -> bool {
        self.active is Some && !is_window_start(self.active->0.window_start, now, self.roll)
    }

    /// The steps of a plan, before which an outlived file is completed.
    pub open spec fn planned(self, plan: Seq<WriterStep>, now: UtcTime) -> Seq<WriterStep> {
        if self.outlived(now) {
            plan + roll_steps()
        } else {
            plan
        }
    }

    /// The state after a batch has left the buffer.
    pub open spec fn drained(self) -> WriterView {
        WriterView { buffer: Seq::empty(), ..self.stepped() }
    }

    /// The state when a sample has arrived.
    pub open spec fn received(self, sample: Sample, now: UtcTime) -> WriterView {
        WriterView {
            arriving: Some(sample),
            agenda: self.planned(store_steps(), now),
            ..self
        }
    }

    /// The state when a flush interval is over.
    pub open spec fn interval_over(self, now: UtcTime) -> WriterView {
        WriterView { agenda: self.planned(interval_steps(), now), ..self }
    }

    /// The state when no more samples will come.
    pub open spec fn finishing(self) -> WriterView {
        WriterView { agenda: complete_steps(), ..self }
    }

    /// Whether a file is to be opened.
    pub open spec fn awaits_file(self) -> bool {
        self.is_at(WriterStep::Open) && self.active is None
    }

    /// Whether a batch is to be written.
    pub open spec fn awaits_write(self) -> bool {
        self.is_at(WriterStep::Flush) && self.active is Some
    }

    /// Rows in the file once the batch is written.
    pub open spec fn rows_with_batch(self) -> u64 {
        let total = self.active->0.rows + self.buffer.len();
        if total <= u64::MAX {
            total as u64
        } else {
            u64::MAX
        }
    }

    /// The state after a file was opened.
    pub open spec fn with_file(self, window_start: UtcTime, paths: FilePaths) -> WriterView {
        if self.awaits_file() {
            WriterView {
                active: Some(ActiveFile { window_start, paths, rows: 0 }),
                ..self.stepped()
            }
        } else {
            self
        }
    }

    /// The state after the batch was written.
    pub open spec fn batch_written(self) -> WriterView {
        if self.awaits_write() {
            WriterView {
                active: Some(ActiveFile { rows: self.rows_with_batch(), ..self.active->0 }),
                ..self.drained()
            }
        } else {
            self
        }
    }

    /// The state after the batch was dropped.
    pub open spec fn batch_dropped(self) -> WriterView {
        if self.awaits_write() {
            self.drained()
        } else {
            self
        }
    }

    /// The state after the file was closed.
    pub open spec fn file_closed(self) -> WriterView {
        if self.is_at(WriterStep::Close) {
            self.stepped()
        } else {
            self
        }
    }

    /// The state after the file got its final name.
    pub open spec fn file_renamed(self) -> WriterView {
        if self.is_at(WriterStep::Rename) {
            WriterView { active: None, ..self.stepped() }
        } else {
            self
        }
    }

    /// The metrics after a file was opened.
    pub open spec fn metrics_with_file(self, metrics: MetricsView) -> MetricsView {
        if self.awaits_file() {
            MetricsView {
                parquet_active_file_open: bool_number(true),
                parquet_active_file_rows: 0,
                ..metrics
            }
        } else {
            metrics
        }
    }

    /// The metrics after the batch was written.
    pub open spec fn metrics_written(self, metrics: MetricsView, now: UtcTime) -> MetricsView {
        if self.awaits_write() {
            metrics.rows_written(self.buffer.len() as u64, self.rows_with_batch(), now)
        } else {
            metrics
        }
    }

    /// The metrics after the batch was dropped.
    pub open spec fn metrics_dropped(self, metrics: MetricsView) -> MetricsView {
        if self.awaits_write() {
            MetricsView {
                parquet_write_errors: increased(metrics.parquet_write_errors, 1),
                ..metrics
            }
        } else {
            metrics
        }
    }

    /// The metrics after the file got its final name.
    pub open spec fn metrics_renamed(self, metrics: MetricsView) -> MetricsView {
        if self.is_at(WriterStep::Rename) {
            MetricsView {
                parquet_active_file_open: bool_number(false),
                parquet_active_file_rows: 0,
                parquet_rolls: increased(metrics.parquet_rolls, 1),
                ..metrics
            }
        } else {
            metrics
        }
    }
}

/// The state of a writer that has nothing to do yet.
pub open spec fn idle(data_dir: Seq<char>, roll: RollPeriod) -> WriterView {
    WriterView {
        data_dir,
        roll,
        active: None,
        buffer: Seq::empty(),
        arriving: None,
        agenda: Seq::empty(),
    }
}

/// Whether a command is the file operation that a state needs.
pub open spec fn commands(view: WriterView, command: WriterCommand, now: UtcTime) -> bool {
    if view.agenda.len() == 0 {
        command is Await
    } else {
        match view.agenda.last() {
            WriterStep::Flush => command is Write,
            WriterStep::Close => command is Close && command->Close_inprogress@
                == view.active->0.paths.inprogress@,
            WriterStep::Rename => command is Rename && command->Rename_inprogress@
                == view.active->0.paths.inprogress@ && command->complete@
                == view.active->0.paths.complete@ && command->rows == view.active->0.rows,
            WriterStep::Open => command is Open && is_window_start(
                command->window_start,
                now,
                view.roll,
            ) && forall|year: int, month: int, day: int| #[trigger]
                date_is(command->window_start.days(), year, month, day) ==> command->directory@
                    == directory_path(
                    view.data_dir,
                    view.roll,
                    year,
                    month,
                    day,
                    command->window_start.spec_hour(),
                ),
            _ => false,
        }
    }
}

impl WriterTask {
    /// Starts with no file and no samples.
    pub fn new(config: ParquetWriterConfig) -> (task: Self)
        ensures
            task@ == idle(config.data_dir@, config.roll),
            task@.valid(),
    {
        let task = WriterTask {
            config,
            active: None,
            buffer: Vec::new(),
            arriving: None,
            agenda: Vec::new(),
        };
        assert(task@.agenda =~= interval_steps().take(0));
        task
    }

    /// The samples that the next write takes, in the order of their arrival.
    pub fn batch(&self) -> (batch: &[Sample])
        ensures
            batch@ == self@.buffer,
    {
        self.buffer.as_slice()
    }

    /// Takes in a sample. A file of an earlier roll window is completed first.
    pub fn receive(&mut self, sample: Sample, now: UtcTime)
        requires
            old(self)@.valid(),
            old(self)@.agenda.len() == 0,
            now.valid(),
        ensures
            final(self)@ == old(self)@.received(sample, now),
            final(self)@.valid(),
    {
        self.arriving = Some(sample);
        self.agenda.push(WriterStep::FlushIfFull);
        self.agenda.push(WriterStep::Accept);
        self.agenda.push(WriterStep::Open);
        self.roll_if_outlived(now);
        proof {
            assert(self@.agenda =~= old(self)@.planned(store_steps(), now));
            lemma_whole_plan(self@.agenda);
        }
    }

    /// Takes note that a flush interval is over. A file of an earlier roll window is
    /// completed first.
    pub fn interval_elapsed(&mut self, now: UtcTime)
        requires
            old(self)@.valid(),
            old(self)@.agenda.len() == 0,
            now.valid(),
        ensures
            final(self)@ == old(self)@.interval_over(now),
            final(self)@.valid(),
    {
        self.agenda.push(WriterStep::Flush);
        self.roll_if_outlived(now);
        proof {
            assert(self@.agenda =~= old(self)@.planned(interval_steps(), now));
            lemma_whole_plan(self@.agenda);
        }
    }

    /// Takes note that no more samples will come: the file is to be completed.
    pub fn finish(&mut self)
        requires
            old(self)@.valid(),
            old(self)@.agenda.len() == 0,
        ensures
            final(self)@ == old(self)@.finishing(),
            final(self)@.valid(),
    {
        self.agenda.push(WriterStep::Rename);
        self.agenda.push(WriterStep::Close);
        self.agenda.push(WriterStep::Flush);
        proof {
            assert(self@.agenda =~= complete_steps());
            lemma_whole_plan(self@.agenda);
        }
    }

    fn roll_if_outlived(&mut self, now: UtcTime)
        requires
            now.valid(),
        ensures
            final(self)@ == (WriterView {
                agenda: old(self)@.planned(old(self)@.agenda, now),
                ..old(self)@
            }),
    {
        if let Some(active) = &self.active {
            let current: UtcTime = roll_window_start(now, self.config.roll);
            proof {
                if is_window_start(active.window_start, now, self.config.roll) {
                    law_window_start_is_unique(
                        active.window_start,
                        current,
                        now,
                        self.config.roll,
                    );
                }
            }
            if active.window_start != current {
                self.agenda.push(WriterStep::Open);
                self.agenda.push(WriterStep::Rename);
                self.agenda.push(WriterStep::Close);
                self.agenda.push(WriterStep::Flush);
            }
        }
        assert(self@.agenda =~= old(self)@.planned(old(self)@.agenda, now));
    }

    /// Works through the agenda and returns the file operation that is needed next.
    pub fn next(&mut self, now: UtcTime) -> (command: WriterCommand)
        requires
            old(self)@.valid(),
            now.valid(),
        ensures
            final(self)@ == old(self)@.settled(),
            final(self)@.valid(),
            commands(final(self)@, command, now),
    {
        while self.agenda.len() > 0
            invariant
                self@.valid(),
                now.valid(),
                self@.settled() == old(self)@.settled(),
            decreases self.agenda.len(), if self@.is_at(WriterStep::FlushIfFull) {
                1int
            } else {
                0int
            },
        {
            let ghost before = self@;
            let step: WriterStep = self.agenda[self.agenda.len() - 1];
            proof {
                lemma_steps_before(before);
            }
            match step {
                WriterStep::Flush => {
                    if self.active.is_some() && self.buffer.len() > 0 {
                        return WriterCommand::Write;
                    }
                    self.step();
                },
                WriterStep::FlushIfFull => {
                    self.step();
                    if self.buffer.len() >= BATCH_ROWS {
                        self.agenda.push(WriterStep::Flush);
                        assert(self@.agenda =~= interval_steps().take(1));
                    }
                },
                WriterStep::Close => {
                    if let Some(active) = &self.active {
                        return WriterCommand::Close { inprogress: active.paths.inprogress.clone() };
                    }
                    self.step();
                },
                WriterStep::Rename => {
                    if let Some(active) = &self.active {
                        return WriterCommand::Rename {
                            inprogress: active.paths.inprogress.clone(),
                            complete: active.paths.complete.clone(),
                            rows: active.rows,
                        };
                    }
                    self.step();
                },
                WriterStep::Open => {
                    if self.active.is_none() {
                        let window_start: UtcTime = roll_window_start(now, self.config.roll);
                        let directory = partition_directory(
                            self.config.data_dir.as_str(),
                            self.config.roll,
                            window_start,
                        );
                        return WriterCommand::Open { directory, window_start };
                    }
                    self.step();
                },
                WriterStep::Accept => {
                    let arriving = self.arriving.take();
                    if let Some(sample) = arriving {
                        self.buffer.push(sample);
                    }
                    self.step();
                },
            }
        }
        WriterCommand::Await
    }

    fn step(&mut self)
        requires
            old(self)@.agenda.len() > 0,
        ensures
            final(self)@ == old(self)@.stepped(),
    {
        let _ = self.agenda.pop();
        assert(self@.agenda =~= old(self)@.agenda.drop_last());
    }

    fn is_at(&self, step: WriterStep) -> (answer: bool)
        ensures
            answer == self@.is_at(step),
    {
        let len: usize = self.agenda.len();
        len > 0 && self.agenda[len - 1] == step
    }

    /// Takes note that the file asked for was opened.
    pub fn opened(&mut self, window_start: UtcTime, paths: FilePaths, metrics: &mut Metrics)
        requires
            old(self)@.valid(),
        ensures
            final(self)@.valid(),
            final(self)@ == old(self)@.with_file(window_start, paths),
            final(metrics)@ == old(self)@.metrics_with_file(old(metrics)@),
    {
        if self.is_at(WriterStep::Open) && self.active.is_none() {
            proof {
                lemma_steps_before(self@);
            }
            self.active = Some(ActiveFile { window_start, paths, rows: 0 });
            self.step();
            metrics.set_parquet_active_file_open(true);
            metrics.set_parquet_active_file_rows(0);
        }
    }

    /// Takes note that the batch asked for was written.
    pub fn written(&mut self, metrics: &mut Metrics, now: UtcTime)
        requires
            old(self)@.valid(),
        ensures
            final(self)@.valid(),
            final(self)@ == old(self)@.batch_written(),
            final(metrics)@ == old(self)@.metrics_written(old(metrics)@, now),
    {
        if self.is_at(WriterStep::Flush) {
            proof {
                lemma_steps_before(self@);
            }
            let rows: u64 = self.buffer.len() as u64;
            let active = self.active.take();
            match active {
                Some(file) => {
                    let total: u64 = file.rows.saturating_add(rows);
                    metrics.parquet_rows_written(rows, total, now);
                    self.active = Some(
                        ActiveFile {
                            window_start: file.window_start,
                            paths: file.paths,
                            rows: total,
                        },
                    );
                    self.buffer.clear();
                    self.step();
                    assert(self@.buffer =~= Seq::empty());
                },
                None => {},
            }
        }
    }

    /// Takes note that the batch asked for could not be written. It is dropped.
    pub fn write_failed(&mut self, metrics: &mut Metrics)
        requires
            old(self)@.valid(),
        ensures
            final(self)@.valid(),
            final(self)@ == old(self)@.batch_dropped(),
            final(metrics)@ == old(self)@.metrics_dropped(old(metrics)@),
    {
        if self.is_at(WriterStep::Flush) && self.active.is_some() {
            proof {
                lemma_steps_before(self@);
            }
            metrics.parquet_write_error();
            self.buffer.clear();
            self.step();
            assert(self@.buffer =~= Seq::empty());
        }
    }

    /// Takes note that the file was closed.
    pub fn closed(&mut self)
        requires
            old(self)@.valid(),
        ensures
            final(self)@.valid(),
            final(self)@ == old(self)@.file_closed(),
    {
        if self.is_at(WriterStep::Close) {
            proof {
                lemma_steps_before(self@);
            }
            self.step();
        }
    }

    /// Takes note that the file has its final name.
    pub fn renamed(&mut self, metrics: &mut Metrics)
        requires
            old(self)@.valid(),
        ensures
            final(self)@.valid(),
            final(self)@ == old(self)@.file_renamed(),
            final(metrics)@ == old(self)@.metrics_renamed(old(metrics)@),
    {
        if self.is_at(WriterStep::Rename) {
            proof {
                lemma_steps_before(self@);
            }
            self.active = None;
            self.step();
            metrics.set_parquet_active_file_open(false);
            metrics.set_parquet_active_file_rows(0);
            metrics.parquet_roll();
        }
    }
}

/// A plan is the rest of itself.
pub(crate) proof fn lemma_whole_plan(plan: Seq<WriterStep>)
    ensures
        rest_of(plan, plan),
{
    assert(plan.take(plan.len() as int) =~= plan);
}

/// What comes after the next step, in each plan.
pub(crate) proof fn lemma_steps_before(view: WriterView)
    requires
        view.valid(),
        view.agenda.len() > 0,
    ensures
        ({
            let rest = view.agenda.drop_last();
            &&& rest_of(rest, store_steps()) || rest_of(rest, interval_steps()) || rest_of(
                rest,
                complete_steps(),
            ) || rest_of(rest, store_steps() + roll_steps()) || rest_of(
                rest,
                interval_steps() + roll_steps(),
            )
            &&& view.is_at(WriterStep::Flush) ==> rest.len() == 0 || rest.last()
                == WriterStep::Close
            &&& view.is_at(WriterStep::Close) ==> rest.len() > 0 && rest.last()
                == WriterStep::Rename
            &&& view.is_at(WriterStep::Rename) ==> rest.len() == 0 || rest.last()
                == WriterStep::Open
            &&& view.is_at(WriterStep::Open) ==> rest.len() > 0 && (rest.last()
                == WriterStep::Accept || rest.last() == WriterStep::Open || rest.last()
                == WriterStep::Flush)
            &&& view.is_at(WriterStep::Accept) ==> rest.len() > 0 && rest.last()
                == WriterStep::FlushIfFull
            &&& view.is_at(WriterStep::FlushIfFull) ==> rest.len() == 0
        }),
{
    let agenda = view.agenda;
    let rest = agenda.drop_last();
    let plans = seq![
        store_steps(),
        interval_steps(),
        complete_steps(),
        store_steps() + roll_steps(),
        interval_steps() + roll_steps(),
    ];
    assert forall|i: int|
        0 <= i < plans.len() && #[trigger] rest_of(agenda, plans[i]) implies rest_of(
        rest,
        plans[i],
    ) by {
        assert(rest =~= plans[i].take(rest.len() as int));
    }
    assert(plans[0] == store_steps());
    assert(plans[1] == interval_steps());
    assert(plans[2] == complete_steps());
    assert(plans[3] == store_steps() + roll_steps());
    assert(plans[4] == interval_steps() + roll_steps());
}

/// Working through the agenda loses no sample and keeps their order.
pub proof fn law_agenda_keeps_every_sample(view: WriterView)
    ensures
        view.settled().waiting() == view.waiting(),
    decreases
        view.agenda.len(),
        if view.is_at(WriterStep::FlushIfFull) {
            1int
        } else {
            0int
        },
{
    if view.agenda.len() > 0 && !view.blocked() {
        match view.agenda.last() {
            WriterStep::FlushIfFull => {
                if view.buffer.len() >= BATCH_ROWS {
                    law_agenda_keeps_every_sample(
                        WriterView {
                            agenda: view.agenda.drop_last().push(WriterStep::Flush),
                            ..view
                        },
                    );
                } else {
                    law_agenda_keeps_every_sample(view.stepped());
                }
            },
            WriterStep::Accept => {
                law_agenda_keeps_every_sample(
                    WriterView { buffer: view.waiting(), arriving: None, ..view.stepped() },
                );
            },
            _ => {
                law_agenda_keeps_every_sample(view.stepped());
            },
        }
    }
}

/// A sample that arrives waits behind all others.
pub proof fn law_received_sample_waits_last(view: WriterView, sample: Sample, now: UtcTime)
    requires
        view.valid(),
        view.agenda.len() == 0,
    ensures
        view.received(sample, now).waiting() == view.waiting().push(sample),
{
}

/// A batch that leaves the buffer is what waited longest, in the order of arrival.
pub proof fn law_written_batch_waited_longest(view: WriterView)
    ensures
        view.buffer + view.drained().waiting() == view.waiting(),
{
    assert(view.buffer + view.drained().waiting() =~= view.waiting());
}

/// A file is renamed only after it was closed: working through the agenda never passes
/// the closing of a file that is open.
pub proof fn law_rename_follows_close(view: WriterView)
    requires
        view.valid(),
        view.settled().is_at(WriterStep::Rename),
    ensures
        view.is_at(WriterStep::Rename),
        view.active is Some,
        view.settled() == view,
    decreases
        view.agenda.len(),
        if view.is_at(WriterStep::FlushIfFull) {
            1int
        } else {
            0int
        },
{
    if view.agenda.len() > 0 && !view.blocked() {
        lemma_steps_before(view);
        match view.agenda.last() {
            WriterStep::FlushIfFull => {
                if view.buffer.len() >= BATCH_ROWS {
                    let next = WriterView {
                        agenda: view.agenda.drop_last().push(WriterStep::Flush),
                        ..view
                    };
                    assert(next.agenda =~= interval_steps().take(1));
                    law_rename_follows_close(next);
                } else {
                    law_rename_follows_close(view.stepped());
                }
            },
            WriterStep::Accept => {
                law_rename_follows_close(
                    WriterView { buffer: view.waiting(), arriving: None, ..view.stepped() },
                );
            },
            _ => {
                law_rename_follows_close(view.stepped());
            },
        }
    }
}

/// When the agenda is done, fewer samples wait than make a batch.
pub proof fn law_full_batches_do_not_wait(view: WriterView)
    requires
        view.valid(),
        view.agenda.len() == 0,
    ensures
        view.buffer.len() < BATCH_ROWS,
        view.waiting() == view.buffer,
{
}

/// When the last file is completed, no sample is left behind.
pub proof fn law_completed_file_leaves_no_sample(view: WriterView)
    requires
        view.valid(),
        view.active is None,
        view.agenda.len() == 0,
    ensures
        view.waiting().len() == 0,
{
}

} // verus!
