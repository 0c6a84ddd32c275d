//! Numbers of the SRTLA and SRT wire protocols.

use vstd::prelude::*;

verus! {

// SRTLA packet types.
pub const SRTLA_TYPE_KEEPALIVE: u16 = 0x9000;

pub const SRTLA_TYPE_ACK: u16 = 0x9100;

pub const SRTLA_TYPE_REG1: u16 = 0x9200;

pub const SRTLA_TYPE_REG2: u16 = 0x9201;

pub const SRTLA_TYPE_REG3: u16 = 0x9202;

pub const SRTLA_TYPE_REG_ERR: u16 = 0x9210;

pub const SRTLA_TYPE_REG_NGP: u16 = 0x9211;

pub const SRTLA_TYPE_REG_NAK: u16 = 0x9212;

// SRT packet types.
pub const SRT_TYPE_HANDSHAKE: u16 = 0x8000;

pub const SRT_TYPE_ACK: u16 = 0x8002;

pub const SRT_TYPE_NAK: u16 = 0x8003;

pub const SRT_TYPE_SHUTDOWN: u16 = 0x8005;

pub const SRT_TYPE_DATA: u16 = 0x0000;

// Packet sizes in bytes.
pub const SRTLA_ID_LEN: usize = 256;

pub const SRTLA_TYPE_REG1_LEN: usize = 258;

pub const SRTLA_TYPE_REG2_LEN: usize = 258;

pub const SRTLA_TYPE_REG3_LEN: usize = 2;

pub const MTU: usize = 1500;

/// Seconds of inbound silence after which a link is declared failed.
///
/// Equal to the receiver's own timeout: below it the receiver still holds the
/// link and keeps echoing keepalives, so a sender that gave up sooner would
/// needlessly register a merely stalled link again.
pub const CONN_TIMEOUT: u64 = 15;

/// Seconds to wait for REG2 after a REG1.
pub const REG2_TIMEOUT: u64 = 4;

/// Seconds to wait for REG3 after a REG2.
pub const REG3_TIMEOUT: u64 = 4;

/// Seconds between two keepalives on a link.
pub const IDLE_TIME: u64 = 1;

// Window management. Windows are held multiplied by `WINDOW_MULT`.
pub const WINDOW_MIN: i32 = 1;

pub const WINDOW_DEF: i32 = 20;

pub const WINDOW_MAX: i32 = 60;

pub const WINDOW_MULT: i32 = 1000;

pub const WINDOW_DECR: i32 = 100;

pub const WINDOW_INCR: i32 = 30;

/// Packets that a link's log is laid out for.
pub const PKT_LOG_SIZE: usize = 256;

// Extended keepalive, which carries connection info.
pub const SRTLA_KEEPALIVE_MAGIC: u16 = 0xc01f;

pub const SRTLA_KEEPALIVE_EXT_LEN: usize = 38;

pub const SRTLA_KEEPALIVE_EXT_VERSION: u16 = 0x0001;

/// Length of a plain keepalive: type and timestamp.
pub const SRTLA_KEEPALIVE_LEN: usize = 10;

/// Sequence numbers that one NAK packet's ranges may expand to.
pub const NAK_RANGE_LIMIT: usize = 1000;

// SRT handshake layout and flags.
/// Length of the header of an SRT control packet.
pub const SRT_CONTROL_HEADER_LEN: usize = 16;

/// Length of the fixed part of a handshake's body.
pub const SRT_HANDSHAKE_CIF_LEN: usize = 48;

/// Version number of a handshake that carries extension blocks.
pub const SRT_HS_VERSION_5: u32 = 5;

/// Request type of the conclusion phase: minus one in two's complement.
pub const SRT_HS_REQTYPE_CONCLUSION: u32 = 0xffff_ffff;

/// Bit of the extension field that announces an HSREQ or HSRSP block.
pub const SRT_HS_EXT_FLAG_HSREQ: u32 = 1;

/// Command of an extension block that holds a handshake request.
pub const SRT_HS_EXT_CMD_HSREQ: u16 = 1;

/// Command of an extension block that holds a handshake response.
pub const SRT_HS_EXT_CMD_HSRSP: u16 = 2;

/// Words in the body of an HSREQ or HSRSP block.
pub const SRT_HS_EXT_HSREQ_WORDS: usize = 3;

/// Flag: the peer sends with a timestamp-based delay.
pub const SRT_HS_OPT_TSBPDSND: u32 = 1;

/// Flag: the peer receives with a timestamp-based delay.
pub const SRT_HS_OPT_TSBPDRCV: u32 = 2;

} // verus!
