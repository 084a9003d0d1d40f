use aircraft_ingest::db_writer::DatabaseWriter;
use aircraft_ingest::downloader::{accept, receive_records, FilterMap};
use aircraft_ingest::models::Aircraft;

fn plane(key: &str, registration: &str) -> Aircraft {
    Aircraft {
        icao24: key.to_string(),
        registration: registration.to_string(),
        ..Aircraft::default()
    }
}

#[test]
fn default_aircraft_has_empty_columns() {
    let row = Aircraft::default();
    assert_eq!(row.icao24, "");
    assert_eq!(row.registration, "");
    assert_eq!(row.vdl, "");
    assert!(!row.valid());
}

#[test]
fn record_is_valid_when_its_key_is_not_empty() {
    assert!(plane("a", "").valid());
    assert!(plane("4b1a2c", "HB-JCA").valid());
    assert!(plane(" ", "").valid());
    assert!(!plane("", "HB-JCA").valid());
}

#[test]
fn normalize_puts_the_key_in_uppercase() {
    let mut row = plane("4b1a2c", "hb-jca");
    row.normalize();
    assert_eq!(row.icao24, "4B1A2C");
    assert_eq!(row.registration, "hb-jca");
}

#[test]
fn normalize_follows_the_unicode_uppercase_mapping() {
    let mut row = plane("straße", "");
    row.normalize();
    assert_eq!(row.icao24, "STRASSE");
    let mut greek = plane("αβγ", "");
    greek.normalize();
    assert_eq!(greek.icao24, "ΑΒΓ");
}

#[test]
fn normalize_leaves_an_uppercase_key_as_it_is() {
    let mut row = plane("ABC123", "D-AIBL");
    row.normalize();
    assert_eq!(row.icao24, "ABC123");
    row.normalize();
    assert_eq!(row.icao24, "ABC123");
    assert_eq!(row.registration, "D-AIBL");
}

#[test]
fn normalize_leaves_the_other_columns_alone() {
    let mut row = Aircraft {
        icao24: "abc".to_string(),
        timestamp: "t".to_string(),
        model: "a320".to_string(),
        owner: "someone".to_string(),
        vdl: "vdl".to_string(),
        ..Aircraft::default()
    };
    row.normalize();
    assert_eq!(row.icao24, "ABC");
    assert_eq!(row.timestamp, "t");
    assert_eq!(row.model, "a320");
    assert_eq!(row.owner, "someone");
    assert_eq!(row.vdl, "vdl");
    assert_eq!(row.acars, "");
}

#[test]
fn filter_and_map_are_valid_and_normalize() {
    let mut row = plane("ab", "");
    assert!(row.filter());
    row.map();
    assert_eq!(row.icao24, "AB");
    assert!(!plane("", "x").filter());
}

#[test]
fn accept_keeps_a_row_with_a_key_in_canonical_form() {
    let kept = accept(plane("ab", "N1")).expect("a row with a key is kept");
    assert_eq!(kept.icao24, "AB");
    assert_eq!(kept.registration, "N1");
    assert!(accept(plane("", "N1")).is_none());
}

#[test]
fn receive_records_drops_a_row_with_an_empty_key() {
    let mut writer: DatabaseWriter<Aircraft> = DatabaseWriter::new();
    writer.set_chunk_size(2);
    assert!(receive_records(&mut writer, plane("", "N1")).is_none());
    assert_eq!(writer.pending_len(), 0);
    assert!(receive_records(&mut writer, plane("a1", "N2")).is_none());
    assert_eq!(writer.pending_len(), 1);
    assert!(receive_records(&mut writer, plane("", "N3")).is_none());
    assert_eq!(writer.pending_len(), 1);
    let batch = receive_records(&mut writer, plane("b2", "N4")).expect("second kept row fills");
    let keys: Vec<&str> = batch.iter().map(|a| a.icao24.as_str()).collect();
    assert_eq!(keys, vec!["A1", "B2"]);
    let registrations: Vec<&str> = batch.iter().map(|a| a.registration.as_str()).collect();
    assert_eq!(registrations, vec!["N2", "N4"]);
    assert_eq!(writer.dispatched(), 1);
}

#[test]
fn every_record_in_a_batch_has_a_key_in_uppercase_that_is_not_empty() {
    let mut writer: DatabaseWriter<Aircraft> = DatabaseWriter::new();
    writer.set_chunk_size(3);
    let keys = ["ab", "", "Cd", "EF", "", "", "0a", "zz", "q"];
    let mut batches = Vec::new();
    for key in keys {
        if let Some(batch) = receive_records(&mut writer, plane(key, "")) {
            batches.push(batch);
        }
    }
    if let Some(batch) = writer.finish().batch {
        batches.push(batch);
    }
    let stored: Vec<Vec<String>> =
        batches.iter().map(|b| b.iter().map(|a| a.icao24.clone()).collect()).collect();
    assert_eq!(
        stored,
        vec![
            vec!["AB".to_string(), "CD".to_string(), "EF".to_string()],
            vec!["0A".to_string(), "ZZ".to_string(), "Q".to_string()],
        ]
    );
    for batch in &batches {
        assert!(batch.len() <= 3);
        for aircraft in batch {
            assert!(!aircraft.icao24.is_empty());
            assert_eq!(aircraft.icao24, aircraft.icao24.to_uppercase());
        }
    }
}
