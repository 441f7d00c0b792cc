//! A network throughput measurement library in the style of iperf3.
//!
//! This crate holds the verified core: the UDP test packet format, the token
//! bucket rate limiter, the buffer pool, statistics collection, the control
//! message framing and the configuration model.

pub mod udp_packet;
pub mod token_bucket;
pub mod buffer_pool;
pub mod measurements;
pub mod bandwidth;
pub mod protocol;
pub mod config;
pub mod test_manager;
pub mod control;
pub mod interval_reporter;
