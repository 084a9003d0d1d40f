//! A run of the pipeline as a state machine: the caller does the outside
//! work and reports what came of it, and the run decides what is done next.

use crate::db_writer::{batch_views, index_on, lemma_views_of_add, writer_views, CompletionTracker, DatabaseWriter, Progress, TrackerView, WriteOutcome, WriterView};
use crate::db_writer::views;
use crate::record_downloader::RecordInfo;
use vstd::prelude::*;

verus! {

/// How a run ended, as the process reports it.
#[derive(Clone, Copy, Debug, PartialEq, Eq)]
pub enum ExitCodes {
    /// The input was read to its end.
    Success,
    /// The input could not be opened or read.
    DownloadError,
    /// The collection could not be dropped, or its index not created.
    DatabaseError,
    /// The task that read the input did not run to its end.
    JoinError,
}

impl ExitCodes {
    /// The exit status that stands for this outcome.
    pub open spec fn spec_code(self) -> int {
        match self {
            ExitCodes::Success => 0,
            ExitCodes::DownloadError => 1,
            ExitCodes::DatabaseError => 2,
            ExitCodes::JoinError => 3,
        }
    }

    /// The exit status that stands for this outcome.
    pub fn code(&self) -> (status: i32)
        ensures
            status == self.spec_code(),
    {
        match self {
            ExitCodes::Success => 0,
            ExitCodes::DownloadError => 1,
            ExitCodes::DatabaseError => 2,
            ExitCodes::JoinError => 3,
        }
    }
}

/// How the task that reads the input ended.
#[derive(Clone, Copy, Debug, PartialEq, Eq)]
pub enum ProducerOutcome {
    /// It read the input to its end.
    Completed,
    /// It gave up on an error of the network, of a row, or of the queue.
    Failed,
    /// It did not run to its end.
    Aborted,
}

impl ProducerOutcome {
    /// The exit code that this end of the producer gives the run.
    pub open spec fn exit(self) -> ExitCodes {
        match self {
            ProducerOutcome::Completed => ExitCodes::Success,
            ProducerOutcome::Failed => ExitCodes::DownloadError,
            ProducerOutcome::Aborted => ExitCodes::JoinError,
        }
    }

    /// The exit code that this end of the producer gives the run.
    pub fn exit_code(&self) -> (code: ExitCodes)
        ensures
            code == self.exit(),
    {
        match self {
            ProducerOutcome::Completed => ExitCodes::Success,
            ProducerOutcome::Failed => ExitCodes::DownloadError,
            ProducerOutcome::Aborted => ExitCodes::JoinError,
        }
    }
}

/// Where a run stands.
#[derive(Clone, Copy, Debug, PartialEq, Eq)]
pub enum Stage {
    /// The input is being opened.
    Opening,
    /// The collection is being dropped.
    Dropping,
    /// The index is being created.
    Indexing,
    /// Records arrive and are gathered into batches.
    Streaming,
    /// The queue is closed; the producer is waited for.
    Joining,
    /// The writes are waited for, one by one.
    Tracking,
    /// Nothing is left to do.
    Finished,
}

impl Stage {
    /// The place of the stage in the order in which a run passes them.
    pub open spec fn rank(self) -> nat {
        match self {
            Stage::Opening => 0,
            Stage::Dropping => 1,
            Stage::Indexing => 2,
            Stage::Streaming => 3,
            Stage::Joining => 4,
            Stage::Tracking => 5,
            Stage::Finished => 6,
        }
    }
}

/// What the caller is to do next, and report back on.
#[derive(Clone, Copy, Debug, PartialEq, Eq)]
pub enum Next {
    /// Open the input.
    OpenSource,
    /// Drop the collection.
    DropCollection,
    /// Create the ascending index on the key field.
    CreateIndex,
    /// Take the next record from the queue.
    Receive,
    /// Wait for the producer to end.
    JoinProducer,
    /// Wait for the oldest write that has not ended yet.
    AwaitWrite,
    /// End the run with this code.
    Exit(ExitCodes),
}

/// What has happened outside since the last step.
#[derive(Debug)]
pub enum Event<D> {
    /// The input is open; its length is given where it is known.
    SourceOpened(Option<u64>),
    /// The input could not be opened.
    SourceFailed,
    /// The collection is gone.
    CollectionDropped,
    /// The collection could not be dropped.
    DropFailed,
    /// The index is there.
    IndexCreated,
    /// The index could not be created.
    IndexFailed,
    /// A record has arrived.
    Envelope(RecordInfo<D>),
    /// The producer has let go of the queue, and the queue is empty.
    QueueClosed,
    /// The producer has ended.
    ProducerJoined(ProducerOutcome),
    /// The oldest write that had not ended yet has ended.
    WriteFinished(WriteOutcome),
}

/// An [`Event`] with its record taken by its view.
pub enum EventView<V> {
    SourceOpened(Option<u64>),
    SourceFailed,
    CollectionDropped,
    DropFailed,
    IndexCreated,
    IndexFailed,
    Envelope { record: V, position: u64 },
    QueueClosed,
    ProducerJoined(ProducerOutcome),
    WriteFinished(WriteOutcome),
}

impl<D: View> View for Event<D> {
    type V = EventView<D::V>;

    open spec fn view(&self) -> EventView<D::V> {
        match *self {
            Event::SourceOpened(length) => EventView::SourceOpened(length),
            Event::SourceFailed => EventView::SourceFailed,
            Event::CollectionDropped => EventView::CollectionDropped,
            Event::DropFailed => EventView::DropFailed,
            Event::IndexCreated => EventView::IndexCreated,
            Event::IndexFailed => EventView::IndexFailed,
            Event::Envelope(info) => EventView::Envelope {
                record: info.record@,
                position: info.position,
            },
            Event::QueueClosed => EventView::QueueClosed,
            Event::ProducerJoined(outcome) => EventView::ProducerJoined(outcome),
            Event::WriteFinished(outcome) => EventView::WriteFinished(outcome),
        }
    }
}

/// What one step decides.
#[derive(Debug)]
pub struct Step<D> {
    /// The byte offset to show as the place of the download, if it has moved.
    pub position: Option<u64>,
    /// The batch to hand to a new write, if one is due.
    pub dispatch: Option<Vec<D>>,
    /// The values to publish as the progress of the writes, in order.
    pub progress: Vec<Progress>,
    /// What to do next.
    pub next: Next,
}

/// A [`Step`] with its records taken by their views.
pub struct StepView<V> {
    pub position: Option<u64>,
    pub dispatch: Option<Seq<V>>,
    pub progress: Seq<Progress>,
    pub next: Next,
}

impl<V> StepView<V> {
    /// A step that moves no indicator, hands out no batch and publishes
    /// nothing.
    pub open spec fn idle(next: Next) -> Self {
        StepView { position: None, dispatch: None, progress: Seq::empty(), next }
    }
}

impl<D: View> View for Step<D> {
    type V = StepView<D::V>;

    open spec fn view(&self) -> StepView<D::V> {
        StepView {
            position: self.position,
            dispatch: batch_views(self.dispatch),
            progress: self.progress@,
            next: self.next,
        }
    }
}

/// What a run holds, as plain mathematical values.
pub struct IngestView<V> {
    pub stage: Stage,
    /// The exit code as far as it is decided.
    pub exit: ExitCodes,
    /// The length of the input in bytes; zero where it is not known.
    pub content_length: u64,
    pub writer: WriterView<V>,
    pub tracker: TrackerView,
}

impl<V> IngestView<V> {
    /// A run that is about to open its input, with the given writer.
    pub open spec fn start(writer: WriterView<V>) -> Self {
        IngestView {
            stage: Stage::Opening,
            exit: ExitCodes::Success,
            content_length: 0,
            writer,
            tracker: TrackerView::fresh(0),
        }
    }

    /// What the caller is to do while the run waits in its stage.
    pub open spec fn awaits(self) -> Next {
        match self.stage {
            Stage::Opening => Next::OpenSource,
            Stage::Dropping => Next::DropCollection,
            Stage::Indexing => Next::CreateIndex,
            Stage::Streaming => Next::Receive,
            Stage::Joining => Next::JoinProducer,
            Stage::Tracking => Next::AwaitWrite,
            Stage::Finished => Next::Exit(self.exit),
        }
    }

    /// The run after a failure of the store before any record was taken: it
    /// is over, and nothing is written or published.
    pub open spec fn refused(self) -> (Self, StepView<V>) {
        (
            IngestView { stage: Stage::Finished, exit: ExitCodes::DatabaseError, ..self },
            StepView::idle(Next::Exit(ExitCodes::DatabaseError)),
        )
    }

    /// The run once no more records will come, with its exit code decided:
    /// the pending records leave as a last batch, and the writes are waited
    /// for. With no write at all the closing value of one hundred is
    /// published at once and the run is over.
    pub open spec fn closed(self, exit: ExitCodes) -> (Self, StepView<V>) {
        let total = self.writer.final_total();
        if total == 0 {
            (
                IngestView {
                    stage: Stage::Finished,
                    exit,
                    writer: self.writer.finished(),
                    tracker: TrackerView::fresh(0),
                    ..self
                },
                StepView {
                    position: None,
                    dispatch: self.writer.flushed_batch(),
                    progress: seq![Progress { completed: 1, total: 1 }],
                    next: Next::Exit(exit),
                },
            )
        } else {
            (
                IngestView {
                    stage: Stage::Tracking,
                    exit,
                    writer: self.writer.finished(),
                    tracker: TrackerView::fresh(total),
                    ..self
                },
                StepView {
                    position: None,
                    dispatch: self.writer.flushed_batch(),
                    progress: Seq::empty(),
                    next: Next::AwaitWrite,
                },
            )
        }
    }

    /// The run after one more write has ended: its progress is published,
    /// and after the last write the closing value too.
    pub open spec fn counted(self, outcome: WriteOutcome) -> (Self, StepView<V>) {
        let tracker = self.tracker.after(outcome);
        let progress = self.tracker.progress_after();
        if tracker.done() {
            (
                IngestView { stage: Stage::Finished, tracker, ..self },
                StepView {
                    position: None,
                    dispatch: None,
                    progress: seq![progress, Progress { completed: 1, total: 1 }],
                    next: Next::Exit(self.exit),
                },
            )
        } else {
            (
                IngestView { tracker, ..self },
                StepView {
                    position: None,
                    dispatch: None,
                    progress: seq![progress],
                    next: Next::AwaitWrite,
                },
            )
        }
    }

    /// The run left as it is, the caller told again what it waits for.
    pub open spec fn unmoved(self) -> (Self, StepView<V>) {
        (self, StepView::idle(self.awaits()))
    }
}

/// The run after a record has arrived while records are taken, and what is
/// decided for it: the record is added to the writer and the indicator moves
/// to the record's place.
pub open spec fn handled<V>(run: IngestView<V>, record: V, position: u64) -> (
    IngestView<V>,
    StepView<V>,
) {
    (
        IngestView { writer: run.writer.add(record), ..run },
        StepView {
            position: Some(position),
            dispatch: run.writer.added_batch(record),
            progress: Seq::empty(),
            next: Next::Receive,
        },
    )
}

/// The run after an event, and what is decided for it. An event that the
/// stage does not wait for changes nothing.
pub open spec fn stepped<V>(run: IngestView<V>, event: EventView<V>) -> (
    IngestView<V>,
    StepView<V>,
) {
    match run.stage {
        Stage::Opening => match event {
            EventView::SourceOpened(length) => (
                IngestView {
                    stage: Stage::Dropping,
                    content_length: match length {
                        Some(n) => n,
                        None => 0,
                    },
                    ..run
                },
                StepView::idle(Next::DropCollection),
            ),
            EventView::SourceFailed => run.closed(ExitCodes::DownloadError),
            _ => run.unmoved(),
        },
        Stage::Dropping => match event {
            EventView::CollectionDropped => (
                IngestView { stage: Stage::Indexing, ..run },
                StepView::idle(Next::CreateIndex),
            ),
            EventView::DropFailed => run.refused(),
            _ => run.unmoved(),
        },
        Stage::Indexing => match event {
            EventView::IndexCreated => (
                IngestView { stage: Stage::Streaming, ..run },
                StepView::idle(Next::Receive),
            ),
            EventView::IndexFailed => run.refused(),
            _ => run.unmoved(),
        },
        Stage::Streaming => match event {
            EventView::Envelope { record, position } => handled(run, record, position),
            EventView::QueueClosed => (
                IngestView { stage: Stage::Joining, ..run },
                StepView::idle(Next::JoinProducer),
            ),
            _ => run.unmoved(),
        },
        Stage::Joining => match event {
            EventView::ProducerJoined(outcome) => run.closed(outcome.exit()),
            _ => run.unmoved(),
        },
        Stage::Tracking => match event {
            EventView::WriteFinished(outcome) => if run.tracker.done() {
                run.unmoved()
            } else {
                run.counted(outcome)
            },
            _ => run.unmoved(),
        },
        Stage::Finished => run.unmoved(),
    }
}

/// The name of the field on which the collection is indexed.
pub fn index_field() -> (field: &'static str)
    ensures
        field@ == "registration"@,
{
    "registration"
}

/// Takes one record off the queue into the writer and reports the place of
/// the record in the input. The writer's count of batches must have room for
/// one more.
pub fn handle_download<D: View>(
    record_info: RecordInfo<D>,
    db_writer: &mut DatabaseWriter<D>,
) -> (step: Step<D>)
    requires
        old(db_writer)@.dispatched < u64::MAX,
    ensures
        final(db_writer)@ == old(db_writer)@.add(record_info.record),
        writer_views(final(db_writer)@) == writer_views(old(db_writer)@).add(record_info.record@),
        step@ == (StepView {
            position: Some(record_info.position),
            dispatch: writer_views(old(db_writer)@).added_batch(record_info.record@),
            progress: Seq::empty(),
            next: Next::Receive,
        }),
{
    proof {
        lemma_views_of_add(old(db_writer)@, record_info.record);
    }
    let position = record_info.position;
    let dispatch = db_writer.add_record(record_info.record);
    Step { position: Some(position), dispatch, progress: Vec::new(), next: Next::Receive }
}

/// A run of the pipeline: it is told what has happened and decides what is to
/// be done.
pub struct Ingest<D> {
    stage: Stage,
    exit: ExitCodes,
    content_length: u64,
    writer: DatabaseWriter<D>,
    tracker: CompletionTracker,
}

impl<D: View> View for Ingest<D> {
    type V = IngestView<D::V>;

    closed spec fn view(&self) -> IngestView<D::V> {
        IngestView {
            stage: self.stage,
            exit: self.exit,
            content_length: self.content_length,
            writer: writer_views(self.writer@),
            tracker: self.tracker@,
        }
    }
}

impl<D: View> Ingest<D> {
    /// A run that is about to open its input and will gather its records
    /// with `db_writer`.
    pub fn new(db_writer: DatabaseWriter<D>) -> (run: Self)
        ensures
            run@ == IngestView::start(writer_views(db_writer@)),
    {
        Ingest {
            stage: Stage::Opening,
            exit: ExitCodes::Success,
            content_length: 0,
            writer: db_writer,
            tracker: CompletionTracker::new(0),
        }
    }

    /// Where the run stands.
    pub fn stage(&self) -> (stage: Stage)
        ensures
            stage == self@.stage,
    {
        self.stage
    }

    /// The exit code as far as it is decided.
    pub fn exit_code(&self) -> (exit: ExitCodes)
        ensures
            exit == self@.exit,
    {
        self.exit
    }

    /// The length of the input in bytes; zero where it is not known.
    pub fn content_length(&self) -> (length: u64)
        ensures
            length == self@.content_length,
    {
        self.content_length
    }

    /// The number of batches handed out since the run began to take records.
    pub fn dispatched(&self) -> (n: u64)
        ensures
            n == self@.writer.dispatched,
    {
        self.writer.dispatched()
    }

    /// The number of writes to wait for, once the input has ended.
    pub fn total(&self) -> (n: u64)
        ensures
            n == self@.tracker.total,
    {
        self.tracker.total()
    }

    /// The number of writes that have ended.
    pub fn completed(&self) -> (n: u64)
        ensures
            n == self@.tracker.completed,
    {
        self.tracker.completed()
    }

    /// The number of writes that ended without storing their batch.
    pub fn failed(&self) -> (n: u64)
        ensures
            n == self@.tracker.failed,
    {
        self.tracker.failed()
    }

    /// Whether the run can count one more batch.
    pub fn has_room(&self) -> (room: bool)
        ensures
            room == (self@.writer.dispatched < u64::MAX),
    {
        self.writer.dispatched() < u64::MAX
    }

    /// The model of the index to create: ascending, on the field that
    /// [`index_field`] names.
    pub fn index_model(&self) -> (model: mongodb::IndexModel)
        ensures
            model == index_on("registration"@, 1),
    {
        self.writer.create_index(index_field())
    }

    /// What the caller is to do while the run waits in its stage.
    pub fn awaits(&self) -> (next: Next)
        ensures
            next == self@.awaits(),
    {
        match self.stage {
            Stage::Opening => Next::OpenSource,
            Stage::Dropping => Next::DropCollection,
            Stage::Indexing => Next::CreateIndex,
            Stage::Streaming => Next::Receive,
            Stage::Joining => Next::JoinProducer,
            Stage::Tracking => Next::AwaitWrite,
            Stage::Finished => Next::Exit(self.exit),
        }
    }

    /// A step that changes nothing.
    fn unmoved(&self) -> (step: Step<D>)
        ensures
            step@ == self@.unmoved().1,
    {
        Step { position: None, dispatch: None, progress: Vec::new(), next: self.awaits() }
    }

    /// A step that does nothing but name what comes next.
    fn idle(next: Next) -> (step: Step<D>)
        ensures
            step@ == StepView::<D::V>::idle(next),
    {
        Step { position: None, dispatch: None, progress: Vec::new(), next }
    }

    /// Ends the run on a failure of the store.
    fn refuse(&mut self) -> (step: Step<D>)
        ensures
            final(self)@ == old(self)@.refused().0,
            step@ == old(self)@.refused().1,
    {
        self.stage = Stage::Finished;
        self.exit = ExitCodes::DatabaseError;
        Self::idle(Next::Exit(ExitCodes::DatabaseError))
    }

    /// Hands out what is pending and turns to the writes.
    fn close(&mut self, exit: ExitCodes) -> (step: Step<D>)
        requires
            old(self)@.writer.dispatched < u64::MAX,
        ensures
            final(self)@ == old(self)@.closed(exit).0,
            step@ == old(self)@.closed(exit).1,
    {
        let done = self.writer.finish();
        self.exit = exit;
        self.tracker = done.tracker;
        let mut progress: Vec<Progress> = Vec::new();
        let next = if done.tracker.total() == 0 {
            self.stage = Stage::Finished;
            progress.push(Progress::hundred());
            Next::Exit(exit)
        } else {
            self.stage = Stage::Tracking;
            Next::AwaitWrite
        };
        proof {
            assert(views(Seq::<D>::empty()) =~= Seq::<D::V>::empty());
            assert(progress@ =~= old(self)@.closed(exit).1.progress);
        }
        Step { position: None, dispatch: done.batch, progress, next }
    }

    /// Counts a write that has ended.
    fn track(&mut self, outcome: WriteOutcome) -> (step: Step<D>)
        requires
            !old(self)@.tracker.done(),
        ensures
            final(self)@ == old(self)@.counted(outcome).0,
            step@ == old(self)@.counted(outcome).1,
    {
        let mut progress: Vec<Progress> = Vec::new();
        progress.push(self.tracker.task_finished(outcome));
        let next = if self.tracker.is_done() {
            self.stage = Stage::Finished;
            progress.push(Progress::hundred());
            Next::Exit(self.exit)
        } else {
            Next::AwaitWrite
        };
        proof {
            assert(progress@ =~= old(self)@.counted(outcome).1.progress);
        }
        Step { position: None, dispatch: None, progress, next }
    }

    /// Takes note of what has happened and decides what is to be done: which
    /// batch is to be written, what is to be shown, and what the caller is to
    /// do next. The count of batches must have room for one more, which
    /// [`Ingest::has_room`] tells.
    pub fn step(&mut self, event: Event<D>) -> (step: Step<D>)
        requires
            old(self)@.writer.dispatched < u64::MAX,
        ensures
            final(self)@ == stepped(old(self)@, event@).0,
            step@ == stepped(old(self)@, event@).1,
    {
        match self.stage {
            Stage::Opening => match event {
                Event::SourceOpened(length) => {
                    self.content_length = match length {
                        Some(n) => n,
                        None => 0,
                    };
                    self.stage = Stage::Dropping;
                    Self::idle(Next::DropCollection)
                },
                Event::SourceFailed => self.close(ExitCodes::DownloadError),
                _ => self.unmoved(),
            },
            Stage::Dropping => match event {
                Event::CollectionDropped => {
                    self.stage = Stage::Indexing;
                    Self::idle(Next::CreateIndex)
                },
                Event::DropFailed => self.refuse(),
                _ => self.unmoved(),
            },
            Stage::Indexing => match event {
                Event::IndexCreated => {
                    self.stage = Stage::Streaming;
                    Self::idle(Next::Receive)
                },
                Event::IndexFailed => self.refuse(),
                _ => self.unmoved(),
            },
            Stage::Streaming => match event {
                Event::Envelope(record_info) => handle_download(record_info, &mut self.writer),
                Event::QueueClosed => {
                    self.stage = Stage::Joining;
                    Self::idle(Next::JoinProducer)
                },
                _ => self.unmoved(),
            },
            Stage::Joining => match event {
                Event::ProducerJoined(outcome) => self.close(outcome.exit_code()),
                _ => self.unmoved(),
            },
            Stage::Tracking => match event {
                Event::WriteFinished(outcome) => if self.tracker.is_done() {
                    self.unmoved()
                } else {
                    self.track(outcome)
                },
                _ => self.unmoved(),
            },
            Stage::Finished => self.unmoved(),
        }
    }
}

} // verus!
