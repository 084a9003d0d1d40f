use aircraft_ingest::db_writer::{connection_uri, DatabaseWriter, DEFAULT_CHUNK_SIZE};

fn run_batches(records: usize, chunk_size: usize) -> Vec<Vec<usize>> {
    let mut writer: DatabaseWriter<usize> = DatabaseWriter::new();
    writer.set_chunk_size(chunk_size);
    let mut batches = Vec::new();
    for record in 0..records {
        if let Some(batch) = writer.add_record(record) {
            batches.push(batch);
        }
    }
    let done = writer.finish();
    if let Some(batch) = done.batch {
        batches.push(batch);
    }
    assert_eq!(done.tracker.total(), batches.len() as u64);
    batches
}

#[test]
fn new_writer_has_default_chunk_size_and_nothing_pending() {
    let writer: DatabaseWriter<u32> = DatabaseWriter::new();
    assert_eq!(DEFAULT_CHUNK_SIZE, 1000);
    assert_eq!(writer.chunk_size(), 1000);
    assert_eq!(writer.pending_len(), 0);
    assert_eq!(writer.dispatched(), 0);
}

#[test]
fn writer_hands_out_a_batch_when_it_is_full() {
    let mut writer: DatabaseWriter<u32> = DatabaseWriter::new();
    writer.set_chunk_size(2);
    assert!(writer.add_record(1).is_none());
    assert_eq!(writer.pending_len(), 1);
    assert_eq!(writer.add_record(2), Some(vec![1, 2]));
    assert_eq!(writer.dispatched(), 1);
    assert_eq!(writer.pending_len(), 0);
    assert!(writer.add_record(3).is_none());
    assert_eq!(writer.add_record(4), Some(vec![3, 4]));
    assert_eq!(writer.dispatched(), 2);
}

#[test]
fn default_writer_fills_at_one_thousand() {
    let mut writer: DatabaseWriter<u32> = DatabaseWriter::new();
    for record in 0..999u32 {
        assert!(writer.add_record(record).is_none());
    }
    let batch = writer.add_record(999).expect("the thousandth record fills the batch");
    assert_eq!(batch.len(), 1000);
    assert_eq!(batch[0], 0);
    assert_eq!(batch[999], 999);
}

#[test]
fn two_and_a_half_thousand_records_make_three_batches() {
    let batches = run_batches(2500, 1000);
    let sizes: Vec<usize> = batches.iter().map(|b| b.len()).collect();
    assert_eq!(sizes, vec![1000, 1000, 500]);
}

#[test]
fn batch_count_is_records_over_chunk_size_rounded_up() {
    for (records, chunk_size, expected) in [
        (0usize, 3usize, Vec::<usize>::new()),
        (1, 3, vec![1]),
        (2, 3, vec![2]),
        (3, 3, vec![3]),
        (4, 3, vec![3, 1]),
        (6, 3, vec![3, 3]),
        (7, 3, vec![3, 3, 1]),
        (5, 1, vec![1, 1, 1, 1, 1]),
        (5, 10, vec![5]),
    ] {
        let sizes: Vec<usize> = run_batches(records, chunk_size).iter().map(|b| b.len()).collect();
        assert_eq!(sizes, expected);
    }
}

#[test]
fn batches_keep_the_order_of_arrival() {
    let batches = run_batches(11, 4);
    assert_eq!(batches, vec![vec![0, 1, 2, 3], vec![4, 5, 6, 7], vec![8, 9, 10]]);
    let flat: Vec<usize> = batches.into_iter().flatten().collect();
    assert_eq!(flat, (0..11).collect::<Vec<usize>>());
}

#[test]
fn chunk_size_zero_behaves_as_one() {
    let batches = run_batches(3, 0);
    assert_eq!(batches, vec![vec![0], vec![1], vec![2]]);
}

#[test]
fn set_chunk_size_drops_what_is_pending() {
    let mut writer: DatabaseWriter<u32> = DatabaseWriter::new();
    writer.set_chunk_size(3);
    assert!(writer.add_record(1).is_none());
    assert!(writer.add_record(2).is_none());
    writer.set_chunk_size(2);
    assert_eq!(writer.chunk_size(), 2);
    assert_eq!(writer.pending_len(), 0);
    assert!(writer.add_record(3).is_none());
    assert_eq!(writer.add_record(4), Some(vec![3, 4]));
}

#[test]
fn finish_without_records_hands_out_nothing() {
    let mut writer: DatabaseWriter<u32> = DatabaseWriter::new();
    let done = writer.finish();
    assert!(done.batch.is_none());
    assert_eq!(done.tracker.total(), 0);
    assert!(done.tracker.is_done());
}

#[test]
fn finish_flushes_the_partial_batch_and_resets_the_writer() {
    let mut writer: DatabaseWriter<u32> = DatabaseWriter::new();
    writer.set_chunk_size(2);
    assert!(writer.add_record(1).is_none());
    assert!(writer.add_record(2).is_some());
    assert!(writer.add_record(3).is_none());
    let done = writer.finish();
    assert_eq!(done.batch, Some(vec![3]));
    assert_eq!(done.tracker.total(), 2);
    assert_eq!(done.tracker.completed(), 0);
    assert_eq!(writer.dispatched(), 0);
    assert_eq!(writer.pending_len(), 0);
    assert_eq!(writer.chunk_size(), 2);
}

#[test]
fn finish_after_full_batches_only_hands_out_nothing_more() {
    let mut writer: DatabaseWriter<u32> = DatabaseWriter::new();
    writer.set_chunk_size(2);
    assert!(writer.add_record(1).is_none());
    assert!(writer.add_record(2).is_some());
    let done = writer.finish();
    assert!(done.batch.is_none());
    assert_eq!(done.tracker.total(), 1);
}

#[test]
fn connection_uri_names_host_port_and_timeout() {
    assert_eq!(
        connection_uri("macmini2"),
        "mongodb://macmini2:27017/?serverSelectionTimeoutMS=2000"
    );
    assert_eq!(connection_uri(""), "mongodb://:27017/?serverSelectionTimeoutMS=2000");
}

#[test]
fn create_index_gives_an_ascending_index_on_the_field() {
    let writer: DatabaseWriter<u32> = DatabaseWriter::new();
    let model = writer.create_index("registration");
    let mut keys = bson::Document::new();
    keys.insert("registration", 1);
    assert_eq!(model.keys, keys);
    assert!(model.options.is_none());
    let other = writer.create_index("icao24");
    assert_eq!(other.keys.get_i32("icao24").unwrap(), 1);
    assert_eq!(other.keys.len(), 1);
}
