//! NVSP status codes returned in completion messages.
use vstd::prelude::*;

verus! {

pub const NONE: u32 = 0;

pub const SUCCESS: u32 = 1;

pub const FAILURE: u32 = 2;

pub const INVALID_RNDIS_PACKET: u32 = 5;

pub const BUSY: u32 = 6;

pub const PROTOCOL_VERSION_UNSUPPORTED: u32 = 7;

} // verus!
