//! The batch writer: it gathers records into batches of a fixed size, and
//! the tracker that counts the writes as they end.

use crate::errors::{begins_with, join_error_text, labelled, mongo_error_text};
use tokio::task::JoinError;
use vstd::prelude::*;
use vstd::std_specs::convert::FromSpecImpl;
use vstd::string::StringExecFns;

verus! {

/// Why the store could not be written to.
#[derive(Debug)]
pub enum DatabaseError {
    /// The store reported an error.
    MongoError(mongodb::error::Error),
    /// A task that was to write did not run to its end.
    JoinError(JoinError),
}

impl From<mongodb::error::Error> for DatabaseError {
    fn from(error: mongodb::error::Error) -> (e: Self) {
        DatabaseError::MongoError(error)
    }
}

impl FromSpecImpl<mongodb::error::Error> for DatabaseError {
    open spec fn obeys_from_spec() -> bool {
        true
    }

    open spec fn from_spec(error: mongodb::error::Error) -> Self {
        DatabaseError::MongoError(error)
    }
}

impl From<JoinError> for DatabaseError {
    fn from(error: JoinError) -> (e: Self) {
        DatabaseError::JoinError(error)
    }
}

impl FromSpecImpl<JoinError> for DatabaseError {
    open spec fn obeys_from_spec() -> bool {
        true
    }

    open spec fn from_spec(error: JoinError) -> Self {
        DatabaseError::JoinError(error)
    }
}

impl DatabaseError {
    /// The words that introduce the error in a message.
    pub open spec fn label(&self) -> Seq<char> {
        match self {
            DatabaseError::MongoError(_) => "MongoDB error: "@,
            DatabaseError::JoinError(_) => "Join error: "@,
        }
    }

    /// The error in words: its label, followed by what the failing part said
    /// of it.
    pub fn message(&self) -> (text: String)
        ensures
            begins_with(text@, self.label()),
    {
        match self {
            DatabaseError::MongoError(e) => {
                let detail = mongo_error_text(e);
                labelled("MongoDB error: ", detail.as_str())
            },
            DatabaseError::JoinError(e) => {
                let detail = join_error_text(e);
                labelled("Join error: ", detail.as_str())
            },
        }
    }
}

/// Number of records in a batch unless the caller chooses otherwise.
pub const DEFAULT_CHUNK_SIZE: usize = 1000;

/// The address of the store on `hostname`: port 27017, and two seconds
/// to find a server.
pub fn connection_uri(hostname: &str) -> (uri: String)
    ensures
        uri@ == "mongodb://"@ + hostname@ + ":27017/?serverSelectionTimeoutMS=2000"@,
{
    let mut uri = String::from_str("mongodb://");
    uri.append(hostname);
    uri.append(":27017/?serverSelectionTimeoutMS=2000");
    uri
}

/// The description of an index as the MongoDB driver sends it to the store.
#[verifier::external_type_specification]
#[verifier::external_body]
pub struct ExIndexModel(mongodb::IndexModel);

/// The index model that the driver's builder makes for one field and one
/// direction.
pub uninterp spec fn index_on(field: Seq<char>, direction: int) -> mongodb::IndexModel;

/// Builds an index model with `IndexModel::builder`: its keys are a document
/// with the one entry `field: direction`, and it has no options. The same
/// field and direction always give the same model.
#[verifier::external_body]
fn index_model(field: &str, direction: i32) -> (model: mongodb::IndexModel)
    ensures
        model == index_on(field@, direction as int),
{
    let mut keys = bson::Document::new();
    keys.insert(field, direction);
    mongodb::IndexModel::builder().keys(keys).build()
}

/// What a [`DatabaseWriter`] holds, as plain mathematical values.
pub struct WriterView<A> {
    /// The chunk size the writer was given.
    pub chunk_size: nat,
    /// The records gathered since the last batch was handed out, oldest first.
    pub pending: Seq<A>,
    /// The number of batches handed out so far.
    pub dispatched: nat,
}

impl<A> WriterView<A> {
    /// The state of a writer that has seen no record yet.
    pub open spec fn fresh(chunk_size: nat) -> Self {
        WriterView { chunk_size, pending: Seq::empty(), dispatched: 0 }
    }

    /// The number of pending records at which a batch is handed out. A chunk
    /// size of zero behaves as a chunk size of one.
    pub open spec fn threshold(self) -> nat {
        if self.chunk_size == 0 {
            1
        } else {
            self.chunk_size
        }
    }

    /// Fewer records are pending than make a batch.
    pub open spec fn wf(self) -> bool {
        self.pending.len() < self.threshold()
    }

    /// Whether one more record completes a batch.
    pub open spec fn fills(self) -> bool {
        self.pending.len() + 1 >= self.threshold()
    }

    /// The batch that adding `record` hands out, if it completes one.
    pub open spec fn added_batch(self, record: A) -> Option<Seq<A>> {
        if self.fills() {
            Some(self.pending.push(record))
        } else {
            None
        }
    }

    /// The state after `record` was added.
    pub open spec fn add(self, record: A) -> Self {
        if self.fills() {
            WriterView { pending: Seq::empty(), dispatched: self.dispatched + 1, ..self }
        } else {
            WriterView { pending: self.pending.push(record), ..self }
        }
    }

    /// The batch that is handed out when the input has ended: the pending
    /// records, unless there are none.
    pub open spec fn flushed_batch(self) -> Option<Seq<A>> {
        if self.pending.len() > 0 {
            Some(self.pending)
        } else {
            None
        }
    }

    /// The number of batches handed out once the input has ended.
    pub open spec fn final_total(self) -> nat {
        if self.pending.len() > 0 {
            self.dispatched + 1
        } else {
            self.dispatched
        }
    }

    /// The state after the input has ended and the last batch was handed out.
    pub open spec fn finished(self) -> Self {
        WriterView { pending: Seq::empty(), dispatched: 0, ..self }
    }

    /// The state after `records` were added one by one, in order.
    pub open spec fn feed(self, records: Seq<A>) -> Self
        decreases records.len(),
    {
        if records.len() == 0 {
            self
        } else {
            self.feed(records.drop_last()).add(records.last())
        }
    }

    /// The batches handed out while `records` were added one by one, in the
    /// order in which they were handed out.
    pub open spec fn fed_batches(self, records: Seq<A>) -> Seq<Seq<A>>
        decreases records.len(),
    {
        if records.len() == 0 {
            Seq::empty()
        } else {
            let earlier = self.fed_batches(records.drop_last());
            match self.feed(records.drop_last()).added_batch(records.last()) {
                Some(batch) => earlier.push(batch),
                None => earlier,
            }
        }
    }

    /// All the batches of a run in which `records` were added one by one and
    /// the input then ended.
    pub open spec fn run_batches(self, records: Seq<A>) -> Seq<Seq<A>> {
        match self.feed(records).flushed_batch() {
            Some(batch) => self.fed_batches(records).push(batch),
            None => self.fed_batches(records),
        }
    }
}

/// The view of an optional batch.
pub open spec fn batch_view<T>(batch: Option<Vec<T>>) -> Option<Seq<T>> {
    match batch {
        Some(b) => Some(b@),
        None => None,
    }
}

/// The views of some records, in order.
pub open spec fn views<D: View>(records: Seq<D>) -> Seq<D::V> {
    records.map_values(|d: D| d@)
}

/// The view of an optional batch of records, each record taken by its view.
pub open spec fn batch_views<D: View>(batch: Option<Vec<D>>) -> Option<Seq<D::V>> {
    match batch {
        Some(b) => Some(views(b@)),
        None => None,
    }
}

/// What a writer holds, each pending record taken by its view.
pub open spec fn writer_views<D: View>(writer: WriterView<D>) -> WriterView<D::V> {
    WriterView {
        chunk_size: writer.chunk_size,
        pending: views(writer.pending),
        dispatched: writer.dispatched,
    }
}

/// Adding a record to a writer adds its view to the writer's views.
pub proof fn lemma_views_of_add<D: View>(writer: WriterView<D>, record: D)
    ensures
        writer_views(writer.add(record)) == writer_views(writer).add(record@),
        (match writer.added_batch(record) {
            Some(batch) => Some(views(batch)),
            None => None,
        }) == writer_views(writer).added_batch(record@),
{
    assert(views(writer.pending.push(record)) =~= views(writer.pending).push(record@));
    assert(views(Seq::<D>::empty()) =~= Seq::<D::V>::empty());
}

/// How far the writes have come: `completed` of `total` batches, read as the
/// share `completed / total` of one hundred.
#[derive(Clone, Copy, Debug, PartialEq, Eq)]
pub struct Progress {
    pub completed: u64,
    pub total: u64,
}

impl Progress {
    /// The share is defined and at most one hundred.
    pub open spec fn valid(self) -> bool {
        0 < self.total && self.completed <= self.total
    }

    /// The share is more than nothing.
    pub open spec fn positive(self) -> bool {
        0 < self.total && 0 < self.completed
    }

    /// The share is exactly one hundred.
    pub open spec fn is_hundred(self) -> bool {
        0 < self.total && self.completed == self.total
    }

    /// The share of `self` is at most that of `other`.
    pub open spec fn le(self, other: Progress) -> bool {
        self.completed * other.total <= other.completed * self.total
    }

    /// The whole part of the share of one hundred.
    pub open spec fn spec_percent(self) -> nat {
        ((100 * self.completed) / (self.total as int)) as nat
    }

    /// The value that closes every run: exactly one hundred.
    pub fn hundred() -> (p: Progress)
        ensures
            p == (Progress { completed: 1, total: 1 }),
            p.is_hundred(),
    {
        Progress { completed: 1, total: 1 }
    }

    /// The whole part of the share of one hundred, for a share that is
    /// defined and at most one hundred.
    pub fn percent(&self) -> (p: u64)
        requires
            self.total > 0,
            self.completed <= self.total,
        ensures
            p == self.spec_percent(),
            p <= 100,
    {
        let scaled: u128 = 100u128 * (self.completed as u128);
        let whole: u128 = scaled / (self.total as u128);
        assert(whole <= 100) by (nonlinear_arith)
            requires
                whole == (100 * self.completed) / (self.total as int),
                0 < self.total,
                self.completed <= self.total,
        ;
        whole as u64
    }
}

/// How one write ended.
#[derive(Clone, Copy, Debug, PartialEq, Eq)]
pub enum WriteOutcome {
    /// The batch was stored.
    Inserted,
    /// The store refused the batch.
    Failed,
    /// The task that was to store the batch did not run to its end.
    Aborted,
}

/// What a [`CompletionTracker`] holds.
pub struct TrackerView {
    /// The number of writes to wait for.
    pub total: nat,
    /// The number of writes that have ended.
    pub completed: nat,
    /// The number of those that did not store their batch.
    pub failed: nat,
}

impl TrackerView {
    /// A tracker that waits for `total` writes, none of which has ended.
    pub open spec fn fresh(total: nat) -> Self {
        TrackerView { total, completed: 0, failed: 0 }
    }

    /// Every write has ended.
    pub open spec fn done(self) -> bool {
        self.completed >= self.total
    }

    /// The state after one more write has ended.
    pub open spec fn after(self, outcome: WriteOutcome) -> Self {
        TrackerView {
            completed: self.completed + 1,
            failed: if outcome == WriteOutcome::Inserted {
                self.failed
            } else {
                self.failed + 1
            },
            ..self
        }
    }

    /// The value published when one more write has ended.
    pub open spec fn progress_after(self) -> Progress {
        Progress { completed: (self.completed + 1) as u64, total: self.total as u64 }
    }

    /// The state after the writes with these outcomes have ended, in order.
    pub open spec fn run(self, outcomes: Seq<WriteOutcome>) -> Self
        decreases outcomes.len(),
    {
        if outcomes.len() == 0 {
            self
        } else {
            self.run(outcomes.drop_last()).after(outcomes.last())
        }
    }

    /// The values published while the writes with these outcomes end, in order.
    pub open spec fn published(self, outcomes: Seq<WriteOutcome>) -> Seq<Progress>
        decreases outcomes.len(),
    {
        if outcomes.len() == 0 {
            Seq::empty()
        } else {
            self.published(outcomes.drop_last()).push(
                self.run(outcomes.drop_last()).progress_after(),
            )
        }
    }

    /// Everything that is published for a run: one value for each write that
    /// ends, then the closing value of one hundred.
    pub open spec fn published_in_all(self, outcomes: Seq<WriteOutcome>) -> Seq<Progress> {
        self.published(outcomes).push(Progress { completed: 1, total: 1 })
    }
}

/// Counts the writes that have ended and says what to publish for each.
#[derive(Clone, Copy, Debug, PartialEq, Eq)]
pub struct CompletionTracker {
    total: u64,
    completed: u64,
    failed: u64,
}

impl View for CompletionTracker {
    type V = TrackerView;

    closed spec fn view(&self) -> TrackerView {
        TrackerView {
            total: self.total as nat,
            completed: self.completed as nat,
            failed: self.failed as nat,
        }
    }
}

impl CompletionTracker {
    /// No more writes have failed than have ended.
    #[verifier::type_invariant]
    spec fn counts_agree(self) -> bool {
        self.failed <= self.completed
    }

    /// A tracker that waits for `total` writes.
    pub fn new(total: u64) -> (tracker: Self)
        ensures
            tracker@ == TrackerView::fresh(total as nat),
    {
        CompletionTracker { total, completed: 0, failed: 0 }
    }

    /// The number of writes to wait for.
    pub fn total(&self) -> (n: u64)
        ensures
            n == self@.total,
    {
        self.total
    }

    /// The number of writes that have ended.
    pub fn completed(&self) -> (n: u64)
        ensures
            n == self@.completed,
    {
        self.completed
    }

    /// The number of writes that ended without storing their batch.
    pub fn failed(&self) -> (n: u64)
        ensures
            n == self@.failed,
    {
        self.failed
    }

    /// Whether every write has ended.
    pub fn is_done(&self) -> (done: bool)
        ensures
            done == self@.done(),
    {
        self.completed >= self.total
    }

    /// Counts one more write as ended, whatever its outcome, and returns the
    /// value to publish for it. At least one write must still be waited for.
    pub fn task_finished(&mut self, outcome: WriteOutcome) -> (progress: Progress)
        requires
            !old(self)@.done(),
        ensures
            final(self)@ == old(self)@.after(outcome),
            progress == old(self)@.progress_after(),
    {
        proof {
            use_type_invariant(&*self);
        }
        self.completed = self.completed + 1;
        match outcome {
            WriteOutcome::Inserted => {},
            _ => {
                self.failed = self.failed + 1;
            },
        }
        Progress { completed: self.completed, total: self.total }
    }
}

/// What is left to do when the input has ended.
pub struct Finish<T> {
    /// The last batch to store, if any record was still pending.
    pub batch: Option<Vec<T>>,
    /// The tracker for all the writes of the run, the last one included.
    pub tracker: CompletionTracker,
}

/// Gathers records into batches of a fixed size and counts the batches it has
/// handed out. The caller stores each batch it is handed.
pub struct DatabaseWriter<T> {
    chunk_size: usize,
    records: Vec<T>,
    dispatched: u64,
}

impl<T> View for DatabaseWriter<T> {
    type V = WriterView<T>;

    closed spec fn view(&self) -> WriterView<T> {
        WriterView {
            chunk_size: self.chunk_size as nat,
            pending: self.records@,
            dispatched: self.dispatched as nat,
        }
    }
}

impl<T> DatabaseWriter<T> {
    /// A writer with the default chunk size that has seen no record.
    pub fn new() -> (writer: Self)
        ensures
            writer@ == WriterView::<T>::fresh(DEFAULT_CHUNK_SIZE as nat),
    {
        DatabaseWriter { chunk_size: DEFAULT_CHUNK_SIZE, records: Vec::new(), dispatched: 0 }
    }

    /// Sets the chunk size. Records gathered so far are dropped.
    pub fn set_chunk_size(&mut self, chunk_size: usize)
        ensures
            final(self)@ == (WriterView {
                chunk_size: chunk_size as nat,
                pending: Seq::<T>::empty(),
                dispatched: old(self)@.dispatched,
            }),
    {
        self.chunk_size = chunk_size;
        self.records = Vec::new();
    }

    /// The model of the ascending index on `field`, for the caller to create
    /// in the store.
    pub fn create_index(&self, field: &str) -> (model: mongodb::IndexModel)
        ensures
            model == index_on(field@, 1),
    {
        index_model(field, 1)
    }

    /// The chunk size in use.
    pub fn chunk_size(&self) -> (n: usize)
        ensures
            n == self@.chunk_size,
    {
        self.chunk_size
    }

    /// The number of records waiting for their batch to fill.
    pub fn pending_len(&self) -> (n: usize)
        ensures
            n == self@.pending.len(),
    {
        self.records.len()
    }

    /// The number of batches handed out so far.
    pub fn dispatched(&self) -> (n: u64)
        ensures
            n == self@.dispatched,
    {
        self.dispatched
    }

    /// Takes the pending records out as one batch and counts it.
    fn write_records(&mut self) -> (batch: Vec<T>)
        requires
            old(self)@.dispatched < u64::MAX,
        ensures
            batch@ == old(self)@.pending,
            final(self)@ == (WriterView {
                pending: Seq::<T>::empty(),
                dispatched: old(self)@.dispatched + 1,
                ..old(self)@
            }),
    {
        let mut batch: Vec<T> = Vec::new();
        std::mem::swap(&mut self.records, &mut batch);
        self.dispatched = self.dispatched + 1;
        batch
    }

    /// Adds a record. When the record completes a batch, the batch is handed
    /// out and a new, empty one begins. The count of batches must have room
    /// for one more.
    pub fn add_record(&mut self, record: T) -> (batch: Option<Vec<T>>)
        requires
            old(self)@.dispatched < u64::MAX,
        ensures
            final(self)@ == old(self)@.add(record),
            batch_view(batch) == old(self)@.added_batch(record),
    {
        self.records.push(record);
        if self.records.len() >= self.chunk_size {
            Some(self.write_records())
        } else {
            None
        }
    }

    /// Ends the run: hands out the pending records as a last batch, unless
    /// there are none, and returns the tracker for all the batches handed out.
    /// The writer is then as new, with its chunk size kept. The count of
    /// batches must have room for one more.
    pub fn finish(&mut self) -> (done: Finish<T>)
        requires
            old(self)@.dispatched < u64::MAX,
        ensures
            batch_view(done.batch) == old(self)@.flushed_batch(),
            done.tracker@ == TrackerView::fresh(old(self)@.final_total()),
            final(self)@ == old(self)@.finished(),
    {
        let batch = if self.records.len() > 0 {
            Some(self.write_records())
        } else {
            assert(self.records@ =~= Seq::<T>::empty());
            None
        };
        let tracker = CompletionTracker::new(self.dispatched);
        self.dispatched = 0;
        Finish { batch, tracker }
    }
}

} // verus!
