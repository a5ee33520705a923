//! The catalog event contract that this producer keeps.

use crate::types::{musicbrainz_types, name_of_type};
use vstd::prelude::*;

verus! {

pub const CONTRACT_NAME: &'static str = "groovemap.catalog-events";

pub const CONTRACT_VERSION: u32 = 1;

pub const SOURCE: &'static str = "musicbrainz";

pub const AMQP_EXCHANGE_TYPE: &'static str = "fanout";

pub const EXCHANGE_PREFIX_ENV: &'static str = "MUSICBRAINZ_EXCHANGE_PREFIX";

pub const DEFAULT_EXCHANGE_PREFIX: &'static str = "groovemap-musicbrainz";

/// The entity types of the contract.
pub fn entity_types() -> (types: [&'static str; 4])
    ensures
        types@ == seq!["artists", "labels", "release-groups", "releases"],
        types@ == musicbrainz_types().map_values(|t| name_of_type(t)),
{
    let types = ["artists", "labels", "release-groups", "releases"];
    assert(types@ =~= musicbrainz_types().map_values(|t| name_of_type(t)));
    types
}

/// The services that consume the events.
pub fn consumers() -> (services: [&'static str; 2])
    ensures
        services@ == seq!["brainzgraphinator", "brainztableinator"],
{
    ["brainzgraphinator", "brainztableinator"]
}

} // verus!
