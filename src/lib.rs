//! The decisions of a genome-wide rare-variant association scan: which gene blocks exist, how
//! they are handed to workers, which phenotypes and blocks are fit to use, and the exact integer
//! parts of the statistics of each block.

pub mod config;
pub mod naming;
pub mod plan;
pub mod schedule;
pub mod stats;
pub mod validate;
