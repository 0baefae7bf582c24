//! Verified core of a small set of UDP tools (a relay, a sender, a receiver
//! and a port probe): the counters and sliding windows behind their live
//! statistics, the retry decisions for sending datagrams, and the text that
//! their terminal displays show.

pub mod text;
pub mod window;
pub mod retry;
pub mod units;
pub mod payload;
pub mod display;
pub mod probe;
pub mod stats;

