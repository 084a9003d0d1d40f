//! Which rows are kept and in what form, the errors of a run, and the taking
//! of a row straight into the writer.

use crate::db_writer::{batch_views, lemma_views_of_add, writer_views, DatabaseWriter, WriterView};
use crate::errors::{begins_with, csv_error_text, join_error_text, labelled, mongo_error_text, reqwest_error_text};
use tokio::task::JoinError;
use vstd::prelude::*;
use vstd::std_specs::convert::FromSpecImpl;

verus! {

/// A record that knows whether it is worth keeping and how it is brought into
/// canonical form before it is stored.
///
/// Both operations are described on the record's view, so that every
/// implementation states exactly which records it keeps and what the canonical
/// form of a record is.
pub trait FilterMap: View + Sized {
    /// Whether a record with this view is kept.
    spec fn keeps(v: Self::V) -> bool;

    /// The canonical form of a record with this view.
    spec fn mapped(v: Self::V) -> Self::V;

    /// Returns `true` when the record is to be kept.
    fn filter(&self) -> (kept: bool)
        ensures
            kept == Self::keeps(self@),
    ;

    /// Brings the record into canonical form in place.
    fn map(&mut self)
        ensures
            final(self)@ == Self::mapped(old(self)@),
    ;
}

/// Why a run ended early.
#[derive(Debug)]
pub enum DownloadError {
    /// The request failed or was answered with an error status.
    ReqwestError(reqwest::Error),
    /// The store reported an error.
    MongoError(mongodb::error::Error),
    /// A row could not be read.
    CsvError(csv_async::Error),
    /// A task did not run to its end.
    JoinError(JoinError),
}

impl From<reqwest::Error> for DownloadError {
    fn from(error: reqwest::Error) -> (e: Self) {
        DownloadError::ReqwestError(error)
    }
}

impl FromSpecImpl<reqwest::Error> for DownloadError {
    open spec fn obeys_from_spec() -> bool {
        true
    }

    open spec fn from_spec(error: reqwest::Error) -> Self {
        DownloadError::ReqwestError(error)
    }
}

impl From<mongodb::error::Error> for DownloadError {
    fn from(error: mongodb::error::Error) -> (e: Self) {
        DownloadError::MongoError(error)
    }
}

impl FromSpecImpl<mongodb::error::Error> for DownloadError {
    open spec fn obeys_from_spec() -> bool {
        true
    }

    open spec fn from_spec(error: mongodb::error::Error) -> Self {
        DownloadError::MongoError(error)
    }
}

impl From<csv_async::Error> for DownloadError {
    fn from(error: csv_async::Error) -> (e: Self) {
        DownloadError::CsvError(error)
    }
}

impl FromSpecImpl<csv_async::Error> for DownloadError {
    open spec fn obeys_from_spec() -> bool {
        true
    }

    open spec fn from_spec(error: csv_async::Error) -> Self {
        DownloadError::CsvError(error)
    }
}

impl From<JoinError> for DownloadError {
    fn from(error: JoinError) -> (e: Self) {
        DownloadError::JoinError(error)
    }
}

impl FromSpecImpl<JoinError> for DownloadError {
    open spec fn obeys_from_spec() -> bool {
        true
    }

    open spec fn from_spec(error: JoinError) -> Self {
        DownloadError::JoinError(error)
    }
}

impl DownloadError {
    /// The words that introduce the error in a message.
    pub open spec fn label(&self) -> Seq<char> {
        match self {
            DownloadError::ReqwestError(_) => "Reqwest error: "@,
            DownloadError::MongoError(_) => "Mongo error: "@,
            DownloadError::CsvError(_) => "CSV error: "@,
            DownloadError::JoinError(_) => "Join error: "@,
        }
    }

    /// The error in words: its label, followed by what the failing part said
    /// of it.
    pub fn message(&self) -> (text: String)
        ensures
            begins_with(text@, self.label()),
    {
        match self {
            DownloadError::ReqwestError(e) => {
                let detail = reqwest_error_text(e);
                labelled("Reqwest error: ", detail.as_str())
            },
            DownloadError::MongoError(e) => {
                let detail = mongo_error_text(e);
                labelled("Mongo error: ", detail.as_str())
            },
            DownloadError::CsvError(e) => {
                let detail = csv_error_text(e);
                labelled("CSV error: ", detail.as_str())
            },
            DownloadError::JoinError(e) => {
                let detail = join_error_text(e);
                labelled("Join error: ", detail.as_str())
            },
        }
    }
}

/// Decides on one row: a row that is not to be kept is dropped, a row that
/// is kept is handed back in its canonical form.
pub fn accept<D: FilterMap>(record: D) -> (kept: Option<D>)
    ensures
        match kept {
            Some(canonical) => D::keeps(record@) && canonical@ == D::mapped(record@),
            None => !D::keeps(record@),
        },
{
    if record.filter() {
        let mut record = record;
        record.map();
        Some(record)
    } else {
        None
    }
}

/// The writer after it was offered a row: the canonical form of the row was
/// added if the row is one to keep, and nothing has changed if it is not.
pub open spec fn received<D: FilterMap>(writer: WriterView<D::V>, row: D::V) -> WriterView<D::V> {
    if D::keeps(row) {
        writer.add(D::mapped(row))
    } else {
        writer
    }
}

/// The batch that is handed out when the writer is offered a row.
pub open spec fn received_batch<D: FilterMap>(writer: WriterView<D::V>, row: D::V) -> Option<
    Seq<D::V>,
> {
    if D::keeps(row) {
        writer.added_batch(D::mapped(row))
    } else {
        None
    }
}

/// Offers one row of the input to the writer. A row that is not to be kept is
/// dropped without a trace. A row that is kept is brought into canonical form
/// and added; the batch is handed out if the row completes it. The writer's
/// count of batches must have room for one more.
pub fn receive_records<D: FilterMap>(db_writer: &mut DatabaseWriter<D>, record: D) -> (batch: Option<
    Vec<D>,
>)
    requires
        old(db_writer)@.dispatched < u64::MAX,
    ensures
        writer_views(final(db_writer)@) == received::<D>(writer_views(old(db_writer)@), record@),
        batch_views(batch) == received_batch::<D>(writer_views(old(db_writer)@), record@),
        !D::keeps(record@) ==> final(db_writer)@ == old(db_writer)@,
{
    match accept(record) {
        None => None,
        Some(canonical) => {
            proof {
                lemma_views_of_add(old(db_writer)@, canonical);
            }
            db_writer.add_record(canonical)
        },
    }
}

} // verus!
