//! One uplink and everything that is known about it.

pub mod ack_nak;
pub mod batch_send;
pub mod bitrate;
pub mod congestion;
pub mod enhanced;
pub mod incoming;
pub mod link;
pub mod packet_log;
pub mod reconnection;
pub mod rtt;

