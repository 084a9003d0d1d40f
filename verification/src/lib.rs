//! Streaming ingestion of an aircraft registry: records are filtered and
//! normalised, gathered into fixed-size batches, handed out for storage one
//! batch at a time, and the completion of the writes is tracked.

pub mod batch_laws;
pub mod db_writer;
pub mod downloader;
pub mod errors;
pub mod ingest;
pub mod ingest_laws;
pub mod intake_laws;
pub mod models;
pub mod progress_laws;
pub mod record_downloader;
