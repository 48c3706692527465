//! Measurement core for request/reply latency and raw-session throughput
//! benchmarks over a pub/sub middleware.
pub mod aggregator;
pub mod correlation;
pub mod delay;
pub mod discipline;
pub mod frame;
pub mod handler;
pub mod handshake;
pub mod keepalive;
pub mod latency;
pub mod once;
pub mod pcap;
pub mod probe;
pub mod query;
pub mod query_thr;
pub mod wire;
