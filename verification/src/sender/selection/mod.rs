//! Which link the next packet goes out on.

pub mod classic;
pub mod classifier;
pub mod edpf;
pub mod enhanced;
pub mod exploration;
pub mod gate;
pub mod iods;
pub mod link_cc;
pub mod rank;
pub mod rtt_threshold;
pub mod sbd;

