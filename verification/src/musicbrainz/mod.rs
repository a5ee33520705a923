//! What is specific to MusicBrainz: its records, its vocabulary, and its extraction runs.
pub mod identifiers;
pub mod identifiers_laws;
pub mod media;
pub mod media_laws;
pub mod release_laws;
pub mod run;
pub mod run_order;
pub mod run_laws;
pub mod schedule;
