use aircraft_ingest::models::Aircraft;
use aircraft_ingest::record_downloader::{
    envelope, iterate_records, sent, DownloadError, DownloadInfo, RecordInfo,
};
use tokio::sync::mpsc::error::{SendError, TryRecvError};

fn row(key: &str, model: &str) -> Aircraft {
    Aircraft { icao24: key.to_string(), model: model.to_string(), ..Aircraft::default() }
}

fn bad_request() -> reqwest::Error {
    reqwest::Client::new().get("not a url").build().unwrap_err()
}

#[test]
fn new_download_knows_no_length_and_has_an_empty_queue() {
    let mut info: DownloadInfo<u32> = DownloadInfo::new();
    assert_eq!(info.content_length, 0);
    assert_eq!(info.rx_channel.try_recv().unwrap_err(), TryRecvError::Empty);
}

#[test]
fn download_notes_the_length_and_gives_the_sender_once() {
    let mut info: DownloadInfo<u32> = DownloadInfo::new();
    let tx = info.download(Ok(Some(4096))).expect("the first call gives the sender");
    assert_eq!(info.content_length, 4096);
    tx.send(RecordInfo { record: 5, position: 17 }).unwrap();
    let got = info.rx_channel.try_recv().unwrap();
    assert_eq!(got.record, 5);
    assert_eq!(got.position, 17);

    let second = info.download(Ok(Some(10)));
    assert!(matches!(second, Err(DownloadError::ChannelError)));
    assert_eq!(info.content_length, 10);
}

#[test]
fn unknown_length_counts_as_zero() {
    let mut info: DownloadInfo<u32> = DownloadInfo::new();
    let first = info.download(Ok(Some(77)));
    assert!(first.is_ok());
    assert_eq!(info.content_length, 77);
    let mut other: DownloadInfo<u32> = DownloadInfo::new();
    assert!(other.download(Ok(None)).is_ok());
    assert_eq!(other.content_length, 0);
}

#[test]
fn failed_request_ends_the_download_and_keeps_the_sender() {
    let mut info: DownloadInfo<u32> = DownloadInfo::new();
    let failed = info.download(Err(bad_request()));
    assert!(matches!(failed, Err(DownloadError::ReqwestError(_))));
    assert_eq!(info.content_length, 0);
    assert!(info.download(Ok(Some(3))).is_ok());
    assert_eq!(info.content_length, 3);
}

#[test]
fn queue_closes_when_the_sender_is_let_go() {
    let mut info: DownloadInfo<Aircraft> = DownloadInfo::new();
    let tx = info.download(Ok(None)).unwrap();
    assert!(iterate_records(Ok(row("a1", "a320")), 10, &tx).is_ok());
    drop(tx);
    assert_eq!(info.rx_channel.try_recv().unwrap().record.icao24, "A1");
    assert_eq!(info.rx_channel.try_recv().unwrap_err(), TryRecvError::Disconnected);
}

#[test]
fn envelope_holds_the_canonical_row_and_its_position() {
    let sealed = envelope(row("ab12", "b737"), 99).expect("a row with a key is kept");
    assert_eq!(sealed.record.icao24, "AB12");
    assert_eq!(sealed.record.model, "b737");
    assert_eq!(sealed.position, 99);
    assert!(envelope(row("", "b737"), 100).is_none());
}

#[test]
fn iterate_records_sends_rows_in_order_with_their_positions() {
    let mut info: DownloadInfo<Aircraft> = DownloadInfo::new();
    let tx = info.download(Ok(Some(100))).unwrap();
    assert!(iterate_records(Ok(row("aa", "first")), 24, &tx).is_ok());
    assert!(iterate_records(Ok(row("bb", "second")), 57, &tx).is_ok());
    assert!(iterate_records(Ok(row("cc", "third")), 57, &tx).is_ok());
    let mut got = Vec::new();
    while let Ok(envelope) = info.rx_channel.try_recv() {
        got.push((envelope.record.icao24, envelope.record.model, envelope.position));
    }
    assert_eq!(
        got,
        vec![
            ("AA".to_string(), "first".to_string(), 24),
            ("BB".to_string(), "second".to_string(), 57),
            ("CC".to_string(), "third".to_string(), 57),
        ]
    );
}

#[test]
fn iterate_records_drops_a_row_with_an_empty_key_and_goes_on() {
    let mut info: DownloadInfo<Aircraft> = DownloadInfo::new();
    let tx = info.download(Ok(None)).unwrap();
    assert!(iterate_records(Ok(row("", "ghost")), 5, &tx).is_ok());
    assert_eq!(info.rx_channel.try_recv().unwrap_err(), TryRecvError::Empty);
    assert!(iterate_records(Ok(row("dd", "real")), 9, &tx).is_ok());
    let got = info.rx_channel.try_recv().unwrap();
    assert_eq!(got.record.icao24, "DD");
    assert_eq!(got.position, 9);
}

#[test]
fn iterate_records_gives_up_on_a_row_that_cannot_be_read() {
    let mut info: DownloadInfo<Aircraft> = DownloadInfo::new();
    let tx = info.download(Ok(None)).unwrap();
    let broken = csv_async::Error::from(std::io::Error::new(std::io::ErrorKind::Other, "bad"));
    let outcome = iterate_records(Err(broken), 3, &tx);
    match outcome {
        Err(DownloadError::CsvError(error)) => assert_eq!(format!("{}", error), "bad"),
        _ => panic!("expected a CSV error"),
    }
    assert_eq!(info.rx_channel.try_recv().unwrap_err(), TryRecvError::Empty);
}

#[test]
fn iterate_records_gives_up_when_nobody_listens() {
    let mut info: DownloadInfo<Aircraft> = DownloadInfo::new();
    let tx = info.download(Ok(None)).unwrap();
    info.rx_channel.close();
    let outcome = iterate_records(Ok(row("ee", "late")), 40, &tx);
    match outcome {
        Err(DownloadError::SendError(SendError(envelope))) => {
            assert_eq!(envelope.record.icao24, "EE");
            assert_eq!(envelope.position, 40);
        }
        _ => panic!("expected a send error"),
    }
    assert!(iterate_records(Ok(row("", "late")), 41, &tx).is_ok());
}

#[test]
fn sent_turns_the_answer_of_the_queue_into_the_outcome_of_the_row() {
    assert!(sent::<u32>(Ok(())).is_ok());
    let refused = sent(Err(SendError(RecordInfo { record: 1u32, position: 2 })));
    assert!(matches!(refused, Err(DownloadError::SendError(_))));
}
