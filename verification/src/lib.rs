//! Per-block statistics derivation for the Bitcoin main chain.
//!
//! The library models a decoded block as plain values (heights, amounts,
//! script bytes, per-input prevout snapshots) and derives six sibling
//! records of numeric aggregates per block.  The derivation itself is
//! verified; consensus re-parsing of raw transaction bytes is delegated to
//! outside crates behind a small trusted boundary.

use vstd::prelude::*;

pub mod boundary;
pub mod caldate;
pub mod classify;
pub mod hexnum;
pub mod laws;
pub mod model;
pub mod opreturn;
pub mod stats;
pub mod store;
pub mod sync;

verus! {

/// Version tag written with every derived row; rows recorded under an older
/// version are re-derived.
pub const STATS_VERSION: i32 = 4;

/// The most recent blocks are not processed, in case of a chain reorg.
pub const REORG_SAFETY_MARGIN: u64 = 6;

/// Number of stat bundles written to the store per transaction.
pub const DATABASE_BATCH_SIZE: usize = 100;

/// Pay-to-anchor outputs below this value (in satoshi) count as dust.
pub const P2A_DUST_THRESHOLD: u64 = 240;

/// Run configuration, as the command line surface supplies it.
pub struct Args {
    /// Host part of the node REST endpoint.
    pub rest_host: String,
    /// Port part of the node REST endpoint.
    pub rest_port: u16,
    /// Path to the database file where the stats are stored.
    pub database_path: String,
    /// Path where the CSV files should be written to.
    pub csv_path: String,
    /// Skip CSV file writing.
    pub no_csv: bool,
    /// Skip stat generation.
    pub no_stats: bool,
    /// Number of threads used for parallel block fetching.
    pub num_threads: usize,
    /// Only sync blocks starting from this height (inclusive).
    pub start_height: Option<u64>,
}

impl Default for Args {
    /// The defaults of the command line surface.
    fn default() -> (r: Args)
        ensures
            r.rest_host@ == "localhost"@,
            r.rest_port == 8332,
            r.database_path@ == "./db.sqlite"@,
            r.csv_path@ == "./csv"@,
            r.num_threads == 14,
            !r.no_csv,
            !r.no_stats,
            r.start_height is None,
    {
        Args {
            rest_host: "localhost".to_owned(),
            rest_port: 8332,
            database_path: "./db.sqlite".to_owned(),
            csv_path: "./csv".to_owned(),
            no_csv: false,
            no_stats: false,
            num_threads: 14,
            start_height: None,
        }
    }
}

} // verus!
