//! Monitor-interval bookkeeping, bandwidth and time arithmetic, and the
//! integer decisions of the PCC Vivace congestion controller.

pub mod monitor_interval_queue;
pub mod pcc;
pub mod quic_bandwidth;
pub mod quic_time;
pub mod quic_type;
