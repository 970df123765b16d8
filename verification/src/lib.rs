//! Host-side observability pipeline: fixed-layout event records extracted by
//! kernel probes travel through bounded byte channels to a decoder, a
//! correlator that pairs begin/end events into durations, and an aggregator
//! that keeps counts, rankings and bounded log history.

pub mod aggregator;
pub mod channel;
pub mod config;
pub mod correlator;
pub mod event;
pub mod probe;
pub mod raw;
pub mod render;
pub mod text;
pub mod wire;
pub mod xdp;
