//! Statistical analysis of mining-time drift between contiguous blocks.
//!
//! The library plans a random, windowed sample of block heights, aggregates
//! the block headers an outside provider returned for them, and ranks the
//! time drift between contiguous blocks with a bounded max-heap.  Floating
//! point summary statistics (mean, standard deviation, Poisson probability)
//! are left to the surrounding application; the library hands it the raw
//! per-pair drift data.
use vstd::prelude::*;

pub mod analyze;
pub mod fetch;
pub mod heap;
pub mod plan;
pub mod utils;

verus! {

/// Application errors.
#[derive(Debug)]
pub enum StatisticsError {
    /// Missing configuration for accessing the block provider.
    ConfigError(String),
    /// Block provider connectivity error.
    ClientError(String),
    /// An error occurred fetching block data.
    RPCError(String),
    /// Statistics were requested over an empty sample.
    EmptySample,
}

/// Configurations required for connecting to the block provider via RPC.
pub struct ClientConfig {
    pub host: String,
    pub username: String,
    pub password: String,
}

impl ClientConfig {
    pub fn new(host: String, username: String, password: String) -> (r: Self)
        ensures
            r.host == host,
            r.username == username,
            r.password == password,
    {
        ClientConfig { host, username, password }
    }
}

/// A block header as the analysis sees it: the mining timestamp in seconds
/// and the block's hash rendered as a string.
pub struct BlockHeader {
    pub time: i64,
    pub hash: String,
}

impl Clone for BlockHeader {
    fn clone(&self) -> (r: Self)
        ensures
            r == *self,
    {
        BlockHeader { time: self.time, hash: self.hash.clone() }
    }
}

/// Collected sample data ready for analysis: one header per successfully
/// fetched height, in the order of the height plan.
pub struct BlockSampleData(pub Vec<BlockHeader>);

/// Use a struct to store the drift and blocks for a binary heap.
/// Doubles as the sample table.
#[derive(Debug)]
pub struct BlockTimeDriftTable {
    pub drift: i64,
    pub parent_hash: String,
    pub child_hash: String,
}

impl BlockTimeDriftTable {
    /// Create a new drift record for a pair of contiguous blocks.
    pub fn new(drift: i64, parent_hash: String, child_hash: String) -> (r: Self)
        ensures
            r.drift == drift,
            r.parent_hash == parent_hash,
            r.child_hash == child_hash,
    {
        BlockTimeDriftTable { drift, parent_hash, child_hash }
    }
}

impl Clone for BlockTimeDriftTable {
    fn clone(&self) -> (r: Self)
        ensures
            r == *self,
    {
        BlockTimeDriftTable {
            drift: self.drift,
            parent_hash: self.parent_hash.clone(),
            child_hash: self.child_hash.clone(),
        }
    }
}

impl PartialEq for BlockTimeDriftTable {
    fn eq(&self, other: &Self) -> (r: bool) {
        self.drift == other.drift && self.parent_hash == other.parent_hash
            && self.child_hash == other.child_hash
    }
}

impl vstd::std_specs::cmp::PartialEqSpecImpl for BlockTimeDriftTable {
    open spec fn obeys_eq_spec() -> bool {
        true
    }

    open spec fn eq_spec(&self, other: &Self) -> bool {
        self.drift == other.drift && self.parent_hash@ == other.parent_hash@
            && self.child_hash@ == other.child_hash@
    }
}

/// Table for showing the Poisson distribution of the sampled data.
/// In theory, due to the network's target difficulty, this distribution
/// should be such that the 95th percentile of block times falls within
/// the ten-minute range.
#[derive(Debug)]
pub struct BlockTimePoissonTable {
    pub drift: i64,
    pub parent_hash: String,
    pub child_hash: String,
}

/// The integer outcome of a drift analysis.  The surrounding application
/// derives the floating point summary statistics (mean, standard deviation,
/// Poisson probability) from `deltas_seconds`.
pub struct DriftAnalysis {
    /// Records at or above the drift threshold, in descending drift order.
    pub ranked_sample: Vec<BlockTimeDriftTable>,
    /// The number of records in `ranked_sample`.
    pub occurrences: usize,
    /// The raw per-pair timestamp difference of every measured pair, in
    /// seconds, in the order the pairs occur in the sample.
    pub deltas_seconds: Vec<i64>,
    /// Whether the data is a sample of the population (Bessel correction).
    pub is_sample: bool,
}

/// Possible statistical analyses that can be selected for a run.
pub enum Analysis {
    /// Run the drift time analysis using a drift time as unix seconds.
    BlockTimeDrift { drift_time: i64, window: u64 },
}

/// Possible statistical analysis that can be run on sampled data.
pub trait BlockStatistics {
    /// The sequence of block headers the analysis runs over.
    spec fn blocks(&self) -> Seq<BlockHeader>;

    /// Run a statistical analysis of two contiguous blocks having a
    /// specified drift time between mining.  The window specifies the number
    /// of contiguous blocks in the sample data.
    ///
    /// Note: This will not be totally accurate as blocks depend on miner
    /// provided timestamps which must be within a 2-hour window of network
    /// adjusted time and be greater than the median of the past 11 blocks.
    fn fetch_block_time_drift(self, drift_time: i64, window: u64, sample: bool) -> (r: Result<
        DriftAnalysis,
        StatisticsError,
    >)
        requires
            window >= 2,
        ensures
            crate::analyze::drift_analysis_matches(self.blocks(), drift_time, window, sample, r),
    ;
}

} // verus!
