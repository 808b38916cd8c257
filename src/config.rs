use vstd::prelude::*;
use vstd::string::StringExecFns;

verus! {

/// Number of blocks processed at once when nothing else is asked for.
pub const DEFAULT_BLOCKS_PER_CHUNK: u32 = 16;

/// The settings of a run that are whole numbers or words, fixed before the run starts.
#[derive(Debug)]
pub struct RunConfig {
    /// Number of outer workers, that is of gene blocks held at once.
    pub blocks_per_chunk: u32,
    /// Size of the compute pool; `0` leaves it to the number of cores.
    pub num_threads: u32,
    /// Log filter, such as `info` or `debug`.
    pub log_level: String,
}

impl RunConfig {
    /// The settings of a run that changes nothing: 16 blocks at once, every core, level `info`.
    pub fn new() -> (r: RunConfig)
        ensures
            r.blocks_per_chunk == DEFAULT_BLOCKS_PER_CHUNK,
            r.num_threads == 0,
            r.log_level@ == "info"@,
    {
        proof { reveal_strlit("info"); }
        RunConfig {
            blocks_per_chunk: DEFAULT_BLOCKS_PER_CHUNK,
            num_threads: 0,
            log_level: String::from_str("info"),
        }
    }
}

/// Sets the log level of the runs that follow.
pub fn set_log_level(config: &mut RunConfig, level: &str)
    ensures
        final(config).log_level@ == level@,
        final(config).blocks_per_chunk == old(config).blocks_per_chunk,
        final(config).num_threads == old(config).num_threads,
{
    config.log_level = String::from_str(level);
}

/// Sets the number of gene blocks processed at once by the runs that follow.
pub fn set_blocks_per_chunk(config: &mut RunConfig, blocks_per_chunk: u32)
    ensures
        final(config).blocks_per_chunk == blocks_per_chunk,
        final(config).num_threads == old(config).num_threads,
        final(config).log_level == old(config).log_level,
{
    config.blocks_per_chunk = blocks_per_chunk;
}

/// Sets the size of the compute pool of the runs that follow.
pub fn set_num_threads(config: &mut RunConfig, num_threads: u32)
    ensures
        final(config).num_threads == num_threads,
        final(config).blocks_per_chunk == old(config).blocks_per_chunk,
        final(config).log_level == old(config).log_level,
{
    config.num_threads = num_threads;
}

} // verus!
