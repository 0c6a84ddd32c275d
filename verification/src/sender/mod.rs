//! Routing packets over the links and keeping the links going.

pub mod addresses;
pub mod connections;
pub mod driver;
pub mod housekeeping;
pub mod keyframe;
pub mod packet_handler;
pub mod routing;
pub mod selection;
pub mod sequence;
pub mod status;
pub mod uplink;
pub mod uplink_recv;

