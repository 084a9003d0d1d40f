use aircraft_ingest::db_writer::{DatabaseWriter, Progress, WriteOutcome};
use aircraft_ingest::ingest::{
    handle_download, index_field, Event, ExitCodes, Ingest, Next, ProducerOutcome, Stage, Step,
};
use aircraft_ingest::models::Aircraft;
use aircraft_ingest::record_downloader::{self, iterate_records, DownloadInfo, RecordInfo};

fn aircraft(key: &str) -> Aircraft {
    Aircraft { icao24: key.to_string(), ..Aircraft::default() }
}

fn envelope(key: &str, position: u64) -> Event<Aircraft> {
    let sealed = record_downloader::envelope(aircraft(key), position);
    Event::Envelope(sealed.expect("a row with a key is kept"))
}

fn run_with(chunk_size: usize) -> Ingest<Aircraft> {
    let mut writer: DatabaseWriter<Aircraft> = DatabaseWriter::new();
    writer.set_chunk_size(chunk_size);
    Ingest::new(writer)
}

fn open_store(run: &mut Ingest<Aircraft>, length: Option<u64>) {
    assert_eq!(run.awaits(), Next::OpenSource);
    assert_eq!(run.step(Event::SourceOpened(length)).next, Next::DropCollection);
    assert_eq!(run.step(Event::CollectionDropped).next, Next::CreateIndex);
    assert_eq!(run.step(Event::IndexCreated).next, Next::Receive);
    assert_eq!(run.stage(), Stage::Streaming);
}

fn is_idle(step: &Step<Aircraft>) -> bool {
    step.position.is_none() && step.dispatch.is_none() && step.progress.is_empty()
}

fn keys(batch: &[Aircraft]) -> Vec<String> {
    batch.iter().map(|a| a.icao24.clone()).collect()
}

#[test]
fn exit_codes_tell_the_outcomes_apart() {
    assert_eq!(ExitCodes::Success.code(), 0);
    assert_eq!(ExitCodes::DownloadError.code(), 1);
    assert_eq!(ExitCodes::DatabaseError.code(), 2);
    assert_eq!(ExitCodes::JoinError.code(), 3);
}

#[test]
fn producer_outcomes_decide_the_exit_code() {
    assert_eq!(ProducerOutcome::Completed.exit_code(), ExitCodes::Success);
    assert_eq!(ProducerOutcome::Failed.exit_code(), ExitCodes::DownloadError);
    assert_eq!(ProducerOutcome::Aborted.exit_code(), ExitCodes::JoinError);
}

#[test]
fn index_is_on_the_registration_field() {
    assert_eq!(index_field(), "registration");
    let run = run_with(10);
    let model = run.index_model();
    let mut expected = bson::Document::new();
    expected.insert("registration", 1);
    assert_eq!(model.keys, expected);
}

#[test]
fn new_run_waits_for_the_input_to_open() {
    let run = run_with(1000);
    assert_eq!(run.stage(), Stage::Opening);
    assert_eq!(run.awaits(), Next::OpenSource);
    assert_eq!(run.exit_code(), ExitCodes::Success);
    assert_eq!(run.content_length(), 0);
    assert_eq!(run.dispatched(), 0);
    assert_eq!(run.total(), 0);
    assert_eq!(run.completed(), 0);
    assert_eq!(run.failed(), 0);
    assert!(run.has_room());
}

#[test]
fn store_is_made_ready_in_order_before_records_are_taken() {
    let mut run = run_with(1000);
    let opened = run.step(Event::SourceOpened(Some(123_456)));
    assert!(is_idle(&opened));
    assert_eq!(opened.next, Next::DropCollection);
    assert_eq!(run.stage(), Stage::Dropping);
    assert_eq!(run.content_length(), 123_456);
    let dropped = run.step(Event::CollectionDropped);
    assert!(is_idle(&dropped));
    assert_eq!(dropped.next, Next::CreateIndex);
    assert_eq!(run.stage(), Stage::Indexing);
    let indexed = run.step(Event::IndexCreated);
    assert!(is_idle(&indexed));
    assert_eq!(indexed.next, Next::Receive);
    assert_eq!(run.stage(), Stage::Streaming);
}

#[test]
fn unknown_content_length_is_zero() {
    let mut run = run_with(1000);
    run.step(Event::SourceOpened(None));
    assert_eq!(run.content_length(), 0);
    assert_eq!(run.stage(), Stage::Dropping);
}

#[test]
fn two_and_a_half_thousand_rows_make_three_writes() {
    let mut run = run_with(1000);
    open_store(&mut run, Some(1_000_000));
    let mut sizes = Vec::new();
    for i in 0..2500u64 {
        let step = run.step(envelope(&format!("k{}", i), i * 10));
        assert_eq!(step.position, Some(i * 10));
        assert_eq!(step.next, Next::Receive);
        assert!(step.progress.is_empty());
        if let Some(batch) = step.dispatch {
            sizes.push(batch.len());
        }
    }
    assert_eq!(sizes, vec![1000, 1000]);
    assert_eq!(run.dispatched(), 2);
    assert_eq!(run.step(Event::QueueClosed).next, Next::JoinProducer);
    let closed = run.step(Event::ProducerJoined(ProducerOutcome::Completed));
    sizes.push(closed.dispatch.expect("the rest leaves as a last batch").len());
    assert_eq!(sizes, vec![1000, 1000, 500]);
    assert_eq!(closed.next, Next::AwaitWrite);
    assert!(closed.progress.is_empty());
    assert_eq!(run.total(), 3);

    let first = run.step(Event::WriteFinished(WriteOutcome::Inserted));
    assert_eq!(first.progress, vec![Progress { completed: 1, total: 3 }]);
    assert_eq!(first.next, Next::AwaitWrite);
    let second = run.step(Event::WriteFinished(WriteOutcome::Inserted));
    assert_eq!(second.progress, vec![Progress { completed: 2, total: 3 }]);
    assert_eq!(second.next, Next::AwaitWrite);
    let third = run.step(Event::WriteFinished(WriteOutcome::Inserted));
    assert_eq!(
        third.progress,
        vec![Progress { completed: 3, total: 3 }, Progress { completed: 1, total: 1 }]
    );
    assert_eq!(third.progress.last().unwrap().percent(), 100);
    assert_eq!(third.next, Next::Exit(ExitCodes::Success));
    assert_eq!(run.stage(), Stage::Finished);
    assert_eq!(run.completed(), 3);
}

#[test]
fn row_with_an_empty_key_is_left_out_and_does_not_stop_the_stream() {
    let mut info: DownloadInfo<Aircraft> = DownloadInfo::new();
    let tx = info.download(Ok(Some(70))).unwrap();
    let rows = [("aa", 10u64), ("", 20), ("bb", 30), ("", 40), ("", 50), ("cc", 60)];
    for (key, position) in rows {
        assert!(iterate_records(Ok(aircraft(key)), position, &tx).is_ok());
    }
    drop(tx);

    let mut run = run_with(2);
    open_store(&mut run, Some(info.content_length));
    let mut batches = Vec::new();
    let mut positions = Vec::new();
    while let Ok(record_info) = info.rx_channel.try_recv() {
        let step = run.step(Event::Envelope(record_info));
        assert_eq!(step.next, Next::Receive);
        positions.push(step.position.unwrap());
        if let Some(batch) = step.dispatch {
            batches.push(keys(&batch));
        }
    }
    assert_eq!(positions, vec![10, 30, 60]);
    run.step(Event::QueueClosed);
    let closed = run.step(Event::ProducerJoined(ProducerOutcome::Completed));
    if let Some(batch) = closed.dispatch {
        batches.push(keys(&batch));
    }
    assert_eq!(
        batches,
        vec![vec!["AA".to_string(), "BB".to_string()], vec!["CC".to_string()]]
    );
    assert_eq!(run.total(), 2);
    let stored: usize = batches.iter().map(|b| b.len()).sum();
    assert_eq!(stored, 3);
}

#[test]
fn input_with_no_rows_writes_nothing_and_still_closes_with_one_hundred() {
    let mut run = run_with(1000);
    assert_eq!(run.step(Event::SourceOpened(Some(64))).next, Next::DropCollection);
    assert_eq!(run.step(Event::CollectionDropped).next, Next::CreateIndex);
    assert_eq!(run.step(Event::IndexCreated).next, Next::Receive);
    assert_eq!(run.step(Event::QueueClosed).next, Next::JoinProducer);
    let closed = run.step(Event::ProducerJoined(ProducerOutcome::Completed));
    assert!(closed.dispatch.is_none());
    assert_eq!(closed.progress, vec![Progress::hundred()]);
    assert_eq!(closed.next, Next::Exit(ExitCodes::Success));
    assert_eq!(run.stage(), Stage::Finished);
    assert_eq!(run.total(), 0);
    assert_eq!(run.dispatched(), 0);
}

#[test]
fn failed_drop_ends_the_run_without_any_write() {
    let mut run = run_with(1);
    run.step(Event::SourceOpened(Some(10)));
    let refused = run.step(Event::DropFailed);
    assert!(is_idle(&refused));
    assert_eq!(refused.next, Next::Exit(ExitCodes::DatabaseError));
    assert_eq!(run.stage(), Stage::Finished);
    assert_eq!(run.exit_code(), ExitCodes::DatabaseError);
    for event in [
        Event::IndexCreated,
        envelope("aa", 1),
        Event::QueueClosed,
        Event::ProducerJoined(ProducerOutcome::Completed),
        Event::WriteFinished(WriteOutcome::Inserted),
    ] {
        let step = run.step(event);
        assert!(is_idle(&step));
        assert_eq!(step.next, Next::Exit(ExitCodes::DatabaseError));
    }
    assert_eq!(run.dispatched(), 0);
    assert_eq!(run.total(), 0);
}

#[test]
fn failed_index_ends_the_run_without_any_write() {
    let mut run = run_with(1);
    run.step(Event::SourceOpened(None));
    run.step(Event::CollectionDropped);
    let refused = run.step(Event::IndexFailed);
    assert!(is_idle(&refused));
    assert_eq!(refused.next, Next::Exit(ExitCodes::DatabaseError));
    assert_eq!(run.exit_code().code(), 2);
    let later = run.step(envelope("aa", 1));
    assert!(later.dispatch.is_none());
    assert_eq!(later.next, Next::Exit(ExitCodes::DatabaseError));
    assert_eq!(run.dispatched(), 0);
}

#[test]
fn input_that_does_not_open_ends_with_a_download_error_and_one_hundred() {
    let mut run = run_with(1000);
    let failed = run.step(Event::SourceFailed);
    assert!(failed.dispatch.is_none());
    assert!(failed.position.is_none());
    assert_eq!(failed.progress, vec![Progress::hundred()]);
    assert_eq!(failed.next, Next::Exit(ExitCodes::DownloadError));
    assert_eq!(run.stage(), Stage::Finished);
    assert_eq!(run.exit_code().code(), 1);
}

#[test]
fn producer_failing_mid_stream_still_flushes_and_waits_for_every_write() {
    let mut run = run_with(2);
    open_store(&mut run, Some(500));
    let mut dispatched = 0;
    for (i, key) in ["a", "b", "c", "d", "e"].iter().enumerate() {
        if run.step(envelope(key, i as u64)).dispatch.is_some() {
            dispatched += 1;
        }
    }
    assert_eq!(dispatched, 2);
    assert_eq!(run.step(Event::QueueClosed).next, Next::JoinProducer);
    let closed = run.step(Event::ProducerJoined(ProducerOutcome::Failed));
    assert_eq!(keys(&closed.dispatch.expect("the partial batch is flushed")), vec!["E"]);
    assert_eq!(closed.next, Next::AwaitWrite);
    assert_eq!(run.exit_code(), ExitCodes::DownloadError);
    assert_eq!(run.total(), 3);
    assert_eq!(run.step(Event::WriteFinished(WriteOutcome::Inserted)).next, Next::AwaitWrite);
    assert_eq!(run.step(Event::WriteFinished(WriteOutcome::Failed)).next, Next::AwaitWrite);
    let last = run.step(Event::WriteFinished(WriteOutcome::Inserted));
    assert_eq!(last.next, Next::Exit(ExitCodes::DownloadError));
    assert_eq!(
        last.progress,
        vec![Progress { completed: 3, total: 3 }, Progress::hundred()]
    );
    assert_eq!(run.completed(), 3);
    assert_eq!(run.failed(), 1);
}

#[test]
fn producer_that_did_not_run_to_its_end_gives_a_join_error() {
    let mut run = run_with(5);
    open_store(&mut run, None);
    run.step(envelope("x", 0));
    run.step(Event::QueueClosed);
    let closed = run.step(Event::ProducerJoined(ProducerOutcome::Aborted));
    assert_eq!(keys(&closed.dispatch.unwrap()), vec!["X"]);
    let last = run.step(Event::WriteFinished(WriteOutcome::Aborted));
    assert_eq!(last.next, Next::Exit(ExitCodes::JoinError));
    assert_eq!(run.exit_code().code(), 3);
    assert_eq!(run.failed(), 1);
}

#[test]
fn failed_writes_do_not_change_the_exit_code() {
    let mut run = run_with(1);
    open_store(&mut run, None);
    assert!(run.step(envelope("a", 0)).dispatch.is_some());
    assert!(run.step(envelope("b", 1)).dispatch.is_some());
    run.step(Event::QueueClosed);
    let closed = run.step(Event::ProducerJoined(ProducerOutcome::Completed));
    assert!(closed.dispatch.is_none());
    assert_eq!(run.total(), 2);
    let first = run.step(Event::WriteFinished(WriteOutcome::Failed));
    assert_eq!(first.progress, vec![Progress { completed: 1, total: 2 }]);
    let second = run.step(Event::WriteFinished(WriteOutcome::Failed));
    assert_eq!(second.next, Next::Exit(ExitCodes::Success));
    assert_eq!(run.failed(), 2);
}

#[test]
fn event_that_the_stage_does_not_wait_for_changes_nothing() {
    let mut run = run_with(2);
    let early = run.step(envelope("aa", 5));
    assert!(is_idle(&early));
    assert_eq!(early.next, Next::OpenSource);
    assert_eq!(run.stage(), Stage::Opening);
    assert_eq!(run.step(Event::IndexCreated).next, Next::OpenSource);
    assert_eq!(run.step(Event::WriteFinished(WriteOutcome::Inserted)).next, Next::OpenSource);

    open_store(&mut run, None);
    assert_eq!(run.step(Event::SourceOpened(Some(9))).next, Next::Receive);
    assert_eq!(run.content_length(), 0);
    assert_eq!(run.step(Event::DropFailed).next, Next::Receive);
    assert_eq!(run.step(Event::ProducerJoined(ProducerOutcome::Failed)).next, Next::Receive);
    assert_eq!(run.stage(), Stage::Streaming);
    assert_eq!(run.exit_code(), ExitCodes::Success);

    run.step(Event::QueueClosed);
    let late = run.step(envelope("bb", 6));
    assert!(is_idle(&late));
    assert_eq!(late.next, Next::JoinProducer);
}

#[test]
fn handle_download_adds_the_record_and_reports_its_position() {
    let mut writer: DatabaseWriter<Aircraft> = DatabaseWriter::new();
    writer.set_chunk_size(2);
    let first = handle_download(RecordInfo { record: aircraft("AB"), position: 22 }, &mut writer);
    assert_eq!(first.position, Some(22));
    assert!(first.dispatch.is_none());
    assert!(first.progress.is_empty());
    assert_eq!(first.next, Next::Receive);
    assert_eq!(writer.pending_len(), 1);
    let full = handle_download(RecordInfo { record: aircraft("CD"), position: 33 }, &mut writer);
    assert_eq!(full.position, Some(33));
    assert_eq!(keys(&full.dispatch.unwrap()), vec!["AB", "CD"]);
    assert!(full.progress.is_empty());
    assert_eq!(writer.pending_len(), 0);
    assert_eq!(writer.dispatched(), 1);
}
