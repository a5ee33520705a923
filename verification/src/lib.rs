//! Catalog ingestion for MusicBrainz: the rules that turn dump records into catalog events.
pub mod text;
pub mod ordered;
pub mod table;
pub mod json;
pub mod musicbrainz;
pub mod types;
pub mod catalog_contract;
pub mod config;
pub mod startup;
pub mod names;
pub mod telemetry;
pub mod runtime;
pub mod runtime_laws;
