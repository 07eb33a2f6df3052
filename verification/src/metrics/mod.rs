pub mod counters;
pub mod latency;
