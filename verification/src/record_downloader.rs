//! The producer's side of the queue: the state of a download, the
//! envelopes in which rows travel, and the passing on of each row.

use crate::downloader::{accept, FilterMap};
use crate::errors::{begins_with, csv_error_text, labelled, reqwest_error_text, send_error_text};
use tokio::sync::mpsc::error::SendError;
use tokio::sync::mpsc::{UnboundedReceiver, UnboundedSender};
use vstd::prelude::*;
use vstd::std_specs::convert::FromSpecImpl;
use vstd::string::StringExecFns;

verus! {

/// The sending half of tokio's unbounded channel. Nothing inside it is visible
/// to the proofs.
#[verifier::external_type_specification]
#[verifier::external_body]
#[verifier::reject_recursive_types(T)]
pub struct ExUnboundedSender<T>(UnboundedSender<T>);

/// The receiving half of tokio's unbounded channel.
#[verifier::external_type_specification]
#[verifier::external_body]
#[verifier::reject_recursive_types(T)]
pub struct ExUnboundedReceiver<T>(UnboundedReceiver<T>);

/// `tokio::sync::mpsc::unbounded_channel` makes the two halves of a new
/// channel. Nothing is claimed of them.
pub assume_specification<T>[ tokio::sync::mpsc::unbounded_channel::<T> ]() -> (halves: (
    UnboundedSender<T>,
    UnboundedReceiver<T>,
));

/// `UnboundedSender::send` queues a message, or hands it back in an error
/// when the receiving half is closed. Which of the two happens depends on the
/// other half; an error holds the message that was to be sent.
pub assume_specification<T>[ UnboundedSender::<T>::send ](
    sender: &UnboundedSender<T>,
    message: T,
) -> (sent: Result<(), SendError<T>>)
    ensures
        sent matches Err(error) ==> error.0 == message,
;

/// A record together with the place in the input at which it was read.
#[derive(Debug)]
pub struct RecordInfo<D> {
    pub record: D,
    /// The byte offset of the record in the input.
    pub position: u64,
}

/// Why a download ended early.
#[derive(Debug)]
#[verifier::reject_recursive_types(D)]
pub enum DownloadError<D> {
    /// The request failed or was answered with an error status.
    ReqwestError(reqwest::Error),
    /// A row could not be read.
    CsvError(csv_async::Error),
    /// The consumer no longer takes records.
    SendError(SendError<RecordInfo<D>>),
    /// The sending half of the queue was already given away.
    ChannelError,
}

impl<D> From<reqwest::Error> for DownloadError<D> {
    fn from(error: reqwest::Error) -> (e: Self) {
        DownloadError::ReqwestError(error)
    }
}

impl<D> FromSpecImpl<reqwest::Error> for DownloadError<D> {
    open spec fn obeys_from_spec() -> bool {
        true
    }

    open spec fn from_spec(error: reqwest::Error) -> Self {
        DownloadError::ReqwestError(error)
    }
}

impl<D> From<csv_async::Error> for DownloadError<D> {
    fn from(error: csv_async::Error) -> (e: Self) {
        DownloadError::CsvError(error)
    }
}

impl<D> FromSpecImpl<csv_async::Error> for DownloadError<D> {
    open spec fn obeys_from_spec() -> bool {
        true
    }

    open spec fn from_spec(error: csv_async::Error) -> Self {
        DownloadError::CsvError(error)
    }
}

impl<D> From<SendError<RecordInfo<D>>> for DownloadError<D> {
    fn from(error: SendError<RecordInfo<D>>) -> (e: Self) {
        DownloadError::SendError(error)
    }
}

impl<D> FromSpecImpl<SendError<RecordInfo<D>>> for DownloadError<D> {
    open spec fn obeys_from_spec() -> bool {
        true
    }

    open spec fn from_spec(error: SendError<RecordInfo<D>>) -> Self {
        DownloadError::SendError(error)
    }
}

impl<D> DownloadError<D> {
    /// The words that introduce the error in a message.
    pub open spec fn label(&self) -> Seq<char> {
        match self {
            DownloadError::ReqwestError(_) => "Reqwest error: "@,
            DownloadError::CsvError(_) => "CSV error: "@,
            DownloadError::SendError(_) => "Send error: "@,
            DownloadError::ChannelError => "Channel error"@,
        }
    }

    /// The error in words: its label, followed by what the failing part said
    /// of it.
    pub fn message(&self) -> (text: String)
        ensures
            begins_with(text@, self.label()),
            self is SendError ==> text@ == "Send error: "@ + "channel closed"@,
            self is ChannelError ==> text@ == "Channel error"@,
    {
        match self {
            DownloadError::ReqwestError(e) => {
                let detail = reqwest_error_text(e);
                labelled("Reqwest error: ", detail.as_str())
            },
            DownloadError::CsvError(e) => {
                let detail = csv_error_text(e);
                labelled("CSV error: ", detail.as_str())
            },
            DownloadError::SendError(e) => {
                let detail = send_error_text(e);
                labelled("Send error: ", detail.as_str())
            },
            DownloadError::ChannelError => {
                let text = String::from_str("Channel error");
                assert(text@.subrange(0, text@.len() as int) =~= text@);
                text
            },
        }
    }
}

/// The state of a download: the length of what is to come and the two halves
/// of the queue that carries the records to the consumer.
#[verifier::reject_recursive_types(D)]
pub struct DownloadInfo<D> {
    pub content_length: u64,
    pub rx_channel: UnboundedReceiver<RecordInfo<D>>,
    tx_channel: Option<UnboundedSender<RecordInfo<D>>>,
}

impl<D> DownloadInfo<D> {
    /// The content length that was noted.
    pub closed spec fn length(&self) -> u64 {
        self.content_length
    }

    /// The sending half, as long as it is here to be given away.
    pub closed spec fn sender(&self) -> Option<UnboundedSender<RecordInfo<D>>> {
        self.tx_channel
    }

    /// The receiving half.
    pub closed spec fn receiver(&self) -> UnboundedReceiver<RecordInfo<D>> {
        self.rx_channel
    }

    /// Whether the sending half is still here to be given away.
    pub open spec fn has_sender(&self) -> bool {
        self.sender() is Some
    }

    /// A download that has not begun: no length known, the queue empty, the
    /// sending half not yet given away.
    pub fn new() -> (info: Self)
        ensures
            info.length() == 0,
            info.has_sender(),
    {
        let (tx, rx) = tokio::sync::mpsc::unbounded_channel::<RecordInfo<D>>();
        DownloadInfo { content_length: 0, rx_channel: rx, tx_channel: Some(tx) }
    }

    /// Begins the download with the answer to the request.
    ///
    /// A failed request ends it with that error and changes nothing. Else the
    /// content length is noted, zero standing for an unknown one, and the
    /// sending half of the queue is given to the caller, who hands it to the
    /// producer. It can be given away once: a second call notes the length and
    /// fails with `ChannelError`.
    pub fn download(&mut self, answer: Result<Option<u64>, reqwest::Error>) -> (started: Result<
        UnboundedSender<RecordInfo<D>>,
        DownloadError<D>,
    >)
        ensures
            final(self).receiver() == old(self).receiver(),
            match answer {
                Err(error) => {
                    &&& started == Err::<UnboundedSender<RecordInfo<D>>, DownloadError<D>>(
                        DownloadError::ReqwestError(error),
                    )
                    &&& *final(self) == *old(self)
                },
                Ok(length) => {
                    &&& final(self).length() == (match length {
                        Some(n) => n,
                        None => 0,
                    })
                    &&& !final(self).has_sender()
                    &&& match old(self).sender() {
                        Some(tx) => started == Ok::<
                            UnboundedSender<RecordInfo<D>>,
                            DownloadError<D>,
                        >(tx),
                        None => started == Err::<UnboundedSender<RecordInfo<D>>, DownloadError<D>>(
                            DownloadError::ChannelError,
                        ),
                    }
                },
            },
    {
        match answer {
            Err(error) => Err(DownloadError::ReqwestError(error)),
            Ok(length) => {
                self.content_length = match length {
                    Some(n) => n,
                    None => 0,
                };
                match self.tx_channel.take() {
                    Some(tx) => Ok(tx),
                    None => Err(DownloadError::ChannelError),
                }
            },
        }
    }
}

/// The envelope in which a row leaves the producer: none for a row that is
/// not to be kept, and else the row in its canonical form with the place at
/// which it was read.
pub fn envelope<D: FilterMap>(record: D, position: u64) -> (sealed: Option<RecordInfo<D>>)
    ensures
        match sealed {
            Some(info) => {
                &&& D::keeps(record@)
                &&& info.record@ == D::mapped(record@)
                &&& info.position == position
            },
            None => !D::keeps(record@),
        },
{
    match accept(record) {
        Some(canonical) => Some(RecordInfo { record: canonical, position }),
        None => None,
    }
}

/// What becomes of a row once the queue has answered.
pub fn sent<D>(answer: Result<(), SendError<RecordInfo<D>>>) -> (outcome: Result<
    (),
    DownloadError<D>,
>)
    ensures
        match answer {
            Ok(_) => outcome is Ok,
            Err(error) => outcome == Err::<(), DownloadError<D>>(DownloadError::SendError(error)),
        },
{
    match answer {
        Ok(_) => Ok(()),
        Err(error) => Err(DownloadError::SendError(error)),
    }
}

/// Passes one row of the input on to the consumer.
///
/// A row that could not be read ends the download with `CsvError`. A row that
/// is not to be kept is dropped and the download goes on. A row that is kept
/// is put on the queue in its canonical form, together with its position; if
/// the consumer no longer listens, the download ends with `SendError`, which
/// holds the envelope that could not be sent.
pub fn iterate_records<D: FilterMap>(
    row: Result<D, csv_async::Error>,
    position: u64,
    tx_channel: &UnboundedSender<RecordInfo<D>>,
) -> (outcome: Result<(), DownloadError<D>>)
    ensures
        match row {
            Err(error) => outcome == Err::<(), DownloadError<D>>(DownloadError::CsvError(error)),
            Ok(record) => if D::keeps(record@) {
                ||| outcome is Ok
                ||| {
                    &&& outcome matches Err(DownloadError::SendError(refused))
                    &&& refused.0.record@ == D::mapped(record@)
                    &&& refused.0.position == position
                }
            } else {
                outcome is Ok
            },
        },
{
    match row {
        Err(error) => Err(DownloadError::CsvError(error)),
        Ok(record) => match envelope(record, position) {
            None => Ok(()),
            Some(record_info) => sent(tx_channel.send(record_info)),
        },
    }
}

} // verus!
