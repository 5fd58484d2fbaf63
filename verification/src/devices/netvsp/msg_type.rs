//! NVSP message-type discriminator. Written as the first `u32` of
//! every message on the wire.
use vstd::prelude::*;

verus! {

pub const NONE: u32 = 0;

// Init messages.
pub const INIT: u32 = 1;

pub const INIT_COMPLETE: u32 = 2;

pub const VERSION_MSG_START: u32 = 100;

// Version 1 messages.
pub const V1_SEND_NDIS_VERSION: u32 = 100;

pub const V1_SEND_RECV_BUF: u32 = 101;

pub const V1_SEND_RECV_BUF_COMPLETE: u32 = 102;

pub const V1_REVOKE_RECV_BUF: u32 = 103;

pub const V1_SEND_SEND_BUF: u32 = 104;

pub const V1_SEND_SEND_BUF_COMPLETE: u32 = 105;

pub const V1_REVOKE_SEND_BUF: u32 = 106;

pub const V1_SEND_RNDIS_PKT: u32 = 107;

pub const V1_SEND_RNDIS_PKT_COMPLETE: u32 = 108;

// Version 2 messages.
pub const V2_SEND_NDIS_CONFIG: u32 = 125;

// Version 4 messages.
pub const V4_SEND_VF_ASSOCIATION: u32 = 128;

pub const V4_SWITCH_DATA_PATH: u32 = 129;

// Version 5 messages.
pub const V5_SEND_INDIRECTION_TABLE: u32 = 134;

} // verus!
