//! Process configuration: where the store is and where the feed comes from.

use vstd::prelude::*;

verus! {

/// The settings of one process.
#[derive(Debug)]
pub struct Config {
    /// The connection string of the relational store.
    pub mysql_connect_uri: String,
    /// The key for the transit agency's live interface.
    pub cta_api_key: String,
    /// The address of the zipped feed.
    pub gtfs_link: String,
}

impl Default for Config {
    /// A local store, no key, and the agency's published feed.
    fn default() -> (c: Config)
        ensures
            c.mysql_connect_uri@ == "mysql://localhost:3306/cta-monitor"@,
            c.cta_api_key@ == ""@,
            c.gtfs_link@ == "https://www.transitchicago.com/downloads/sch_data/google_transit.zip"@,
    {
        Config {
            mysql_connect_uri: String::from_str("mysql://localhost:3306/cta-monitor"),
            cta_api_key: String::from_str(""),
            gtfs_link: String::from_str(
                "https://www.transitchicago.com/downloads/sch_data/google_transit.zip",
            ),
        }
    }
}

} // verus!
