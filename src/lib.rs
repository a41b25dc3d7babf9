pub mod dataset;
pub mod ingest;
pub mod table;
pub mod wine;
