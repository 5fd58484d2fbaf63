//! Hyper-V synthetic NIC vdev, the
//! `f8615163-df3e-46c5-913f-f2d2f965ed0e` VMBus device.
pub mod msg_type;
pub mod rndis;
pub mod status;

use crate::channel;
use crate::channel::open_channel;
use crate::channel::Channel;
use crate::channel::ChannelState;
use crate::devices::link;
use crate::devices::link::Link;
use crate::error::Error;
use crate::error::Result;
use crate::gpadl;
use crate::gpadl::establish_gpadl;
use crate::gpadl::GpadlHandle;
use crate::hvsock::ConnectResultHandler;
use crate::hypercalls::spin_once;
use crate::hypercalls::HvCtx;
use crate::hypercalls::HvEvent;
use crate::hypercalls::HypercallTrait;
use crate::packet::InPacket;
use crate::protocol;
use crate::protocol::ChannelId;
use crate::protocol::Guid;
use crate::protocol::OfferChannel;
use crate::protocol::PacketFlags;
use crate::protocol::PacketType;
use crate::ring::RecvRing;
use crate::ring::RingMem;
use crate::ring::SendRing;
use crate::state::VmbusState;
use crate::wire;
use crate::wire::Wire;
use vstd::prelude::*;

verus! {

broadcast use crate::hypercalls::group_ran;

/// `g` is the NIC's interface GUID.
pub open spec fn is_interface(g: Guid) -> bool {
    &&& g.data1 == 0xf861_5163
    &&& g.data2 == 0xdf3e
    &&& g.data3 == 0x46c5
    &&& g.data4@ == seq![0x91u8, 0x3f, 0xf2, 0xd2, 0xf9, 0x65, 0xed, 0x0e]
}

/// There is one such GUID.
pub proof fn lemma_interface(a: Guid, b: Guid)
    requires
        is_interface(a),
    ensures
        is_interface(b) == (a == b),
{
    if is_interface(b) {
        assert(a.data4 =~= b.data4);
    }
}

/// `f8615163-df3e-46c5-913f-f2d2f965ed0e`: VMBus interface GUID for
/// the Hyper-V synthetic NIC.
pub fn interface_guid() -> (r: Guid)
    ensures
        is_interface(r),
{
    Guid {
        data1: 0xf861_5163,
        data2: 0xdf3e,
        data3: 0x46c5,
        data4: [0x91, 0x3f, 0xf2, 0xd2, 0xf9, 0x65, 0xed, 0x0e],
    }
}

// ---------------------------------------------------------------------------
// Protocol versions
// ---------------------------------------------------------------------------
/// NVSP protocol version. V3 is intentionally absent: never shipped.
#[derive(Copy, Clone, Debug, Eq, PartialEq, PartialOrd, Ord, Structural)]
pub enum Version {
    V1,
    V2,
    V4,
    V5,
    V6,
    V61,
}

impl Version {
    /// The version word.
    pub open spec fn number(self) -> u32 {
        match self {
            Version::V1 => 0x0000_0002,
            Version::V2 => 0x0003_0002,
            Version::V4 => 0x0004_0000,
            Version::V5 => 0x0005_0000,
            Version::V6 => 0x0006_0000,
            Version::V61 => 0x0006_0001,
        }
    }

    /// The version word as it goes on the wire.
    pub fn raw(self) -> (r: u32)
        ensures
            r == self.number(),
    {
        match self {
            Version::V1 => protocol::make_version(0, 2),
            Version::V2 => protocol::make_version(3, 2),
            Version::V4 => protocol::make_version(4, 0),
            Version::V5 => protocol::make_version(5, 0),
            Version::V6 => protocol::make_version(6, 0),
            Version::V61 => protocol::make_version(6, 1),
        }
    }
}

/// Version-negotiation ladder, highest-first. Iterate top to bottom
/// and stop on the first `InitComplete` with `status = SUCCESS`.
pub const NEGOTIATION_LADDER: [Version; 6] = [
    Version::V61,
    Version::V6,
    Version::V5,
    Version::V4,
    Version::V2,
    Version::V1,
];

/// Sentinel written to `Netvsp::version` before negotiation succeeds.
pub const INVALID_PROTOCOL_VERSION: u32 = 0xffff_ffff;

/// The version whose word is `raw`.
pub open spec fn version_of(raw: u32) -> Result<Version> {
    if raw == Version::V1.number() {
        Ok(Version::V1)
    } else if raw == Version::V2.number() {
        Ok(Version::V2)
    } else if raw == Version::V4.number() {
        Ok(Version::V4)
    } else if raw == Version::V5.number() {
        Ok(Version::V5)
    } else if raw == Version::V6.number() {
        Ok(Version::V6)
    } else if raw == Version::V61.number() {
        Ok(Version::V61)
    } else {
        Err(Error::VersionMismatch)
    }
}

/// Law: a version is found again by its word, the sentinel is no
/// version's word, and the ladder runs from the newest version to the
/// oldest.
pub proof fn law_version_words(v: Version, i: int, j: int)
    requires
        0 <= i < j < NEGOTIATION_LADDER@.len(),
    ensures
        version_of(v.number()) == Ok::<Version, Error>(v),
        version_of(INVALID_PROTOCOL_VERSION) is Err,
        NEGOTIATION_LADDER@[i].number() > NEGOTIATION_LADDER@[j].number(),
{
}

// ---------------------------------------------------------------------------
// Wire-frame sizes
// ---------------------------------------------------------------------------
/// Total NVSP wire-frame size for pre-V6.1 messages. Header + body
/// tail-padded to this length regardless of the actual body size.
pub const NVSP_LEGACY_MESSAGE_SIZE: usize = 0x1c;

/// Total NVSP wire-frame size for V6.1+ messages.
pub const NVSP_V61_MESSAGE_SIZE: usize = 0x28;

/// Frame size of a version.
pub open spec fn frame_size(version: Version) -> int {
    if version == Version::V61 {
        40
    } else {
        28
    }
}

/// Frame size to use for the currently-negotiated version.
pub fn frame_size_for(version: Version) -> (r: usize)
    ensures
        r == frame_size(version),
{
    match version {
        Version::V61 => NVSP_V61_MESSAGE_SIZE,
        _ => NVSP_LEGACY_MESSAGE_SIZE,
    }
}

// ---------------------------------------------------------------------------
// Constants
// ---------------------------------------------------------------------------
/// Guest-chosen ID for the receive buffer.
pub const NETVSC_RECEIVE_BUFFER_ID: u16 = 0xcafe;

/// Guest-chosen ID for the send buffer.
pub const NETVSC_SEND_BUFFER_ID: u16 = 0x0;

/// Sentinel meaning "not using a send-buffer section" in
/// `Nvsp1MsgSendRndisPacket::send_buf_section_index`. External data
/// (GPA-direct) is being used instead.
pub const NETVSC_INVALID_INDEX: u32 = 0xffff_ffff;

/// Minimum accepted section size in both send and receive buffer
/// completions: smaller than a legal Ethernet MTU is nonsense.
pub const NETVSC_MTU_MIN: u32 = 68;

/// Cap on the receive buffer for hosts speaking V1/V2 (15 MiB).
pub const NETVSC_RECEIVE_BUFFER_SIZE_LEGACY: usize = 15728640;

/// RNDIS data channel type (RMC_DATA).
pub const RMC_DATA: u32 = 0;

/// RNDIS control channel type (RMC_CONTROL), used for init /
/// query / set.
pub const RMC_CONTROL: u32 = 1;

// ---------------------------------------------------------------------------
// Wire types
// ---------------------------------------------------------------------------
/// Every NVSP packet starts with this 4-byte header.
#[derive(Copy, Clone, Debug, PartialEq, Eq)]
pub struct MessageHeader {
    /// One of [`msg_type`].
    pub message_type: u32,
}

impl Wire for MessageHeader {
    open spec fn wire(&self) -> Seq<u8> {
        self.message_type.wire()
    }

    open spec fn wire_len() -> nat {
        4
    }

    proof fn lemma_wire_len(&self) {
        self.message_type.lemma_wire_len();
    }

    proof fn lemma_injective(&self, other: &Self) {
        self.message_type.lemma_injective(&other.message_type);
    }

    fn wire_size() -> (n: usize) {
        4
    }

    fn write_to(&self, out: &mut Vec<u8>) {
        self.message_type.write_to(out);
    }

    fn read_at(bytes: &[u8], off: usize) -> (r: Self) {
        let r = MessageHeader {
            message_type: u32::read_at(bytes, off),
        };
        r
    }
}

/// `NvspMessageTypeInit` body (guest to host).
///
/// Both fields carry the same version.
#[derive(Copy, Clone, Debug, PartialEq, Eq)]
pub struct NvspMsgInit {
    /// Requested version.
    pub protocol_version: u32,
    /// Same as [`Self::protocol_version`] on modern flows.
    pub protocol_version2: u32,
}

impl Wire for NvspMsgInit {
    open spec fn wire(&self) -> Seq<u8> {
        self.protocol_version.wire() + self.protocol_version2.wire()
    }

    open spec fn wire_len() -> nat {
        8
    }

    proof fn lemma_wire_len(&self) {
        self.protocol_version.lemma_wire_len();
        self.protocol_version2.lemma_wire_len();
    }

    proof fn lemma_injective(&self, other: &Self) {
        self.protocol_version.lemma_wire_len();
        other.protocol_version.lemma_wire_len();
        self.protocol_version2.lemma_wire_len();
        other.protocol_version2.lemma_wire_len();
        let b = self.wire();
        assert(self.protocol_version.wire() =~= b.subrange(0, 4));
        assert(other.protocol_version.wire() =~= b.subrange(0, 4));
        self.protocol_version.lemma_injective(&other.protocol_version);
        assert(self.protocol_version2.wire() =~= b.subrange(4, 8));
        assert(other.protocol_version2.wire() =~= b.subrange(4, 8));
        self.protocol_version2.lemma_injective(&other.protocol_version2);
    }

    fn wire_size() -> (n: usize) {
        8
    }

    fn write_to(&self, out: &mut Vec<u8>) {
        self.protocol_version.write_to(out);
        self.protocol_version2.write_to(out);
        proof {
            assert(out@ =~= old(out)@ + self.wire());
        }
    }

    fn read_at(bytes: &[u8], off: usize) -> (r: Self) {
        proof {
            wire::lemma_slice_len(bytes);
        }
        let r = NvspMsgInit {
            protocol_version: u32::read_at(bytes, off),
            protocol_version2: u32::read_at(bytes, off + 4),
        };
        proof {
            r.lemma_wire_len();
            r.protocol_version.lemma_wire_len();
            r.protocol_version2.lemma_wire_len();
            assert(r.wire() =~= bytes@.subrange(off as int, off + 8));
        }
        r
    }
}

/// `NvspMessageTypeInitComplete` body (host to guest).
///
/// `status` is [`status::SUCCESS`] on acceptance; anything else
/// means try the next version in the ladder.
#[derive(Copy, Clone, Debug, PartialEq, Eq)]
pub struct NvspMsgInitComplete {
    /// Was the negotiated protocol version.
    pub deprecated: u32,
    /// Max MDL chain length; informational.
    pub maximum_mdl_chain_length: u32,
    /// See [`status`].
    pub status: u32,
}

impl Wire for NvspMsgInitComplete {
    open spec fn wire(&self) -> Seq<u8> {
        self.deprecated.wire() + self.maximum_mdl_chain_length.wire() + self.status.wire()
    }

    open spec fn wire_len() -> nat {
        12
    }

    proof fn lemma_wire_len(&self) {
        self.deprecated.lemma_wire_len();
        self.maximum_mdl_chain_length.lemma_wire_len();
        self.status.lemma_wire_len();
    }

    proof fn lemma_injective(&self, other: &Self) {
        self.deprecated.lemma_wire_len();
        other.deprecated.lemma_wire_len();
        self.maximum_mdl_chain_length.lemma_wire_len();
        other.maximum_mdl_chain_length.lemma_wire_len();
        self.status.lemma_wire_len();
        other.status.lemma_wire_len();
        let b = self.wire();
        assert(self.deprecated.wire() =~= b.subrange(0, 4));
        assert(other.deprecated.wire() =~= b.subrange(0, 4));
        self.deprecated.lemma_injective(&other.deprecated);
        assert(self.maximum_mdl_chain_length.wire() =~= b.subrange(4, 8));
        assert(other.maximum_mdl_chain_length.wire() =~= b.subrange(4, 8));
        self.maximum_mdl_chain_length.lemma_injective(&other.maximum_mdl_chain_length);
        assert(self.status.wire() =~= b.subrange(8, 12));
        assert(other.status.wire() =~= b.subrange(8, 12));
        self.status.lemma_injective(&other.status);
    }

    fn wire_size() -> (n: usize) {
        12
    }

    fn write_to(&self, out: &mut Vec<u8>) {
        self.deprecated.write_to(out);
        self.maximum_mdl_chain_length.write_to(out);
        self.status.write_to(out);
        proof {
            assert(out@ =~= old(out)@ + self.wire());
        }
    }

    fn read_at(bytes: &[u8], off: usize) -> (r: Self) {
        proof {
            wire::lemma_slice_len(bytes);
        }
        let r = NvspMsgInitComplete {
            deprecated: u32::read_at(bytes, off),
            maximum_mdl_chain_length: u32::read_at(bytes, off + 4),
            status: u32::read_at(bytes, off + 8),
        };
        proof {
            r.lemma_wire_len();
            r.deprecated.lemma_wire_len();
            r.maximum_mdl_chain_length.lemma_wire_len();
            r.status.lemma_wire_len();
            assert(r.wire() =~= bytes@.subrange(off as int, off + 12));
        }
        r
    }
}

/// `Nvsp1MessageSendNdisVersion` body (guest to host, no completion).
#[derive(Copy, Clone, Debug, PartialEq, Eq)]
pub struct Nvsp1MsgSendNdisVersion {
    /// NDIS major version.
    pub ndis_major_version: u32,
    /// NDIS minor version.
    pub ndis_minor_version: u32,
}

impl Wire for Nvsp1MsgSendNdisVersion {
    open spec fn wire(&self) -> Seq<u8> {
        self.ndis_major_version.wire() + self.ndis_minor_version.wire()
    }

    open spec fn wire_len() -> nat {
        8
    }

    proof fn lemma_wire_len(&self) {
        self.ndis_major_version.lemma_wire_len();
        self.ndis_minor_version.lemma_wire_len();
    }

    proof fn lemma_injective(&self, other: &Self) {
        self.ndis_major_version.lemma_wire_len();
        other.ndis_major_version.lemma_wire_len();
        self.ndis_minor_version.lemma_wire_len();
        other.ndis_minor_version.lemma_wire_len();
        let b = self.wire();
        assert(self.ndis_major_version.wire() =~= b.subrange(0, 4));
        assert(other.ndis_major_version.wire() =~= b.subrange(0, 4));
        self.ndis_major_version.lemma_injective(&other.ndis_major_version);
        assert(self.ndis_minor_version.wire() =~= b.subrange(4, 8));
        assert(other.ndis_minor_version.wire() =~= b.subrange(4, 8));
        self.ndis_minor_version.lemma_injective(&other.ndis_minor_version);
    }

    fn wire_size() -> (n: usize) {
        8
    }

    fn write_to(&self, out: &mut Vec<u8>) {
        self.ndis_major_version.write_to(out);
        self.ndis_minor_version.write_to(out);
        proof {
            assert(out@ =~= old(out)@ + self.wire());
        }
    }

    fn read_at(bytes: &[u8], off: usize) -> (r: Self) {
        proof {
            wire::lemma_slice_len(bytes);
        }
        let r = Nvsp1MsgSendNdisVersion {
            ndis_major_version: u32::read_at(bytes, off),
            ndis_minor_version: u32::read_at(bytes, off + 4),
        };
        proof {
            r.lemma_wire_len();
            r.ndis_major_version.lemma_wire_len();
            r.ndis_minor_version.lemma_wire_len();
            assert(r.wire() =~= bytes@.subrange(off as int, off + 8));
        }
        r
    }
}

/// `Nvsp1MessageSendReceiveBuffer` body (guest to host).
#[derive(Copy, Clone, Debug, PartialEq, Eq)]
pub struct Nvsp1MsgSendBuffer {
    /// GPADL handle for the buffer.
    pub gpadl_handle: u32,
    /// Buffer identifier, [`NETVSC_RECEIVE_BUFFER_ID`] or
    /// [`NETVSC_SEND_BUFFER_ID`].
    pub id: u16,
    /// Padding to `u32` alignment.
    pub pad: u16,
}

impl Wire for Nvsp1MsgSendBuffer {
    open spec fn wire(&self) -> Seq<u8> {
        self.gpadl_handle.wire() + self.id.wire() + self.pad.wire()
    }

    open spec fn wire_len() -> nat {
        8
    }

    proof fn lemma_wire_len(&self) {
        self.gpadl_handle.lemma_wire_len();
        self.id.lemma_wire_len();
        self.pad.lemma_wire_len();
    }

    proof fn lemma_injective(&self, other: &Self) {
        self.gpadl_handle.lemma_wire_len();
        other.gpadl_handle.lemma_wire_len();
        self.id.lemma_wire_len();
        other.id.lemma_wire_len();
        self.pad.lemma_wire_len();
        other.pad.lemma_wire_len();
        let b = self.wire();
        assert(self.gpadl_handle.wire() =~= b.subrange(0, 4));
        assert(other.gpadl_handle.wire() =~= b.subrange(0, 4));
        self.gpadl_handle.lemma_injective(&other.gpadl_handle);
        assert(self.id.wire() =~= b.subrange(4, 6));
        assert(other.id.wire() =~= b.subrange(4, 6));
        self.id.lemma_injective(&other.id);
        assert(self.pad.wire() =~= b.subrange(6, 8));
        assert(other.pad.wire() =~= b.subrange(6, 8));
        self.pad.lemma_injective(&other.pad);
    }

    fn wire_size() -> (n: usize) {
        8
    }

    fn write_to(&self, out: &mut Vec<u8>) {
        self.gpadl_handle.write_to(out);
        self.id.write_to(out);
        self.pad.write_to(out);
        proof {
            assert(out@ =~= old(out)@ + self.wire());
        }
    }

    fn read_at(bytes: &[u8], off: usize) -> (r: Self) {
        proof {
            wire::lemma_slice_len(bytes);
        }
        let r = Nvsp1MsgSendBuffer {
            gpadl_handle: u32::read_at(bytes, off),
            id: u16::read_at(bytes, off + 4),
            pad: u16::read_at(bytes, off + 6),
        };
        proof {
            r.lemma_wire_len();
            r.gpadl_handle.lemma_wire_len();
            r.id.lemma_wire_len();
            r.pad.lemma_wire_len();
            assert(r.wire() =~= bytes@.subrange(off as int, off + 8));
        }
        r
    }
}

/// One entry in [`Nvsp1MsgSendRecvBufComplete::sections`].
#[derive(Copy, Clone, Debug, PartialEq, Eq)]
pub struct Nvsp1ReceiveBufferSection {
    /// Offset from buffer start where this section begins.
    pub offset: u32,
    /// Size of each sub-allocation.
    pub sub_alloc_size: u32,
    /// Number of sub-allocations.
    pub num_sub_allocs: u32,
    /// Offset one-past-end of the section.
    pub end_offset: u32,
}

impl Wire for Nvsp1ReceiveBufferSection {
    open spec fn wire(&self) -> Seq<u8> {
        self.offset.wire()
            + self.sub_alloc_size.wire()
            + self.num_sub_allocs.wire()
            + self.end_offset.wire()
    }

    open spec fn wire_len() -> nat {
        16
    }

    proof fn lemma_wire_len(&self) {
        self.offset.lemma_wire_len();
        self.sub_alloc_size.lemma_wire_len();
        self.num_sub_allocs.lemma_wire_len();
        self.end_offset.lemma_wire_len();
    }

    proof fn lemma_injective(&self, other: &Self) {
        self.offset.lemma_wire_len();
        other.offset.lemma_wire_len();
        self.sub_alloc_size.lemma_wire_len();
        other.sub_alloc_size.lemma_wire_len();
        self.num_sub_allocs.lemma_wire_len();
        other.num_sub_allocs.lemma_wire_len();
        self.end_offset.lemma_wire_len();
        other.end_offset.lemma_wire_len();
        let b = self.wire();
        assert(self.offset.wire() =~= b.subrange(0, 4));
        assert(other.offset.wire() =~= b.subrange(0, 4));
        self.offset.lemma_injective(&other.offset);
        assert(self.sub_alloc_size.wire() =~= b.subrange(4, 8));
        assert(other.sub_alloc_size.wire() =~= b.subrange(4, 8));
        self.sub_alloc_size.lemma_injective(&other.sub_alloc_size);
        assert(self.num_sub_allocs.wire() =~= b.subrange(8, 12));
        assert(other.num_sub_allocs.wire() =~= b.subrange(8, 12));
        self.num_sub_allocs.lemma_injective(&other.num_sub_allocs);
        assert(self.end_offset.wire() =~= b.subrange(12, 16));
        assert(other.end_offset.wire() =~= b.subrange(12, 16));
        self.end_offset.lemma_injective(&other.end_offset);
    }

    fn wire_size() -> (n: usize) {
        16
    }

    fn write_to(&self, out: &mut Vec<u8>) {
        self.offset.write_to(out);
        self.sub_alloc_size.write_to(out);
        self.num_sub_allocs.write_to(out);
        self.end_offset.write_to(out);
        proof {
            assert(out@ =~= old(out)@ + self.wire());
        }
    }

    fn read_at(bytes: &[u8], off: usize) -> (r: Self) {
        proof {
            wire::lemma_slice_len(bytes);
        }
        let r = Nvsp1ReceiveBufferSection {
            offset: u32::read_at(bytes, off),
            sub_alloc_size: u32::read_at(bytes, off + 4),
            num_sub_allocs: u32::read_at(bytes, off + 8),
            end_offset: u32::read_at(bytes, off + 12),
        };
        proof {
            r.lemma_wire_len();
            r.offset.lemma_wire_len();
            r.sub_alloc_size.lemma_wire_len();
            r.num_sub_allocs.lemma_wire_len();
            r.end_offset.lemma_wire_len();
            assert(r.wire() =~= bytes@.subrange(off as int, off + 16));
        }
        r
    }
}

impl Wire for [Nvsp1ReceiveBufferSection; 1] {
    open spec fn wire(&self) -> Seq<u8> {
        self@[0].wire()
    }

    open spec fn wire_len() -> nat {
        16
    }

    proof fn lemma_wire_len(&self) {
        self@[0].lemma_wire_len();
    }

    proof fn lemma_injective(&self, other: &Self) {
        self@[0].lemma_injective(&other@[0]);
        assert(*self =~= *other);
    }

    fn wire_size() -> (n: usize) {
        16
    }

    fn write_to(&self, out: &mut Vec<u8>) {
        self[0].write_to(out);
    }

    fn read_at(bytes: &[u8], off: usize) -> (r: Self) {
        let r: [Nvsp1ReceiveBufferSection; 1] = [Nvsp1ReceiveBufferSection::read_at(bytes, off)];
        r
    }
}

/// `Nvsp1MessageSendReceiveBufferComplete` body (host to guest).
///
/// **Note**: no host has ever sent more than one section.
#[derive(Copy, Clone, Debug, PartialEq, Eq)]
pub struct Nvsp1MsgSendRecvBufComplete {
    /// See [`status`].
    pub status: u32,
    /// Number of sections; always 1 in practice.
    pub num_sections: u32,
    /// The single (in practice) section descriptor.
    pub sections: [Nvsp1ReceiveBufferSection; 1],
}

impl Wire for Nvsp1MsgSendRecvBufComplete {
    open spec fn wire(&self) -> Seq<u8> {
        self.status.wire() + self.num_sections.wire() + self.sections.wire()
    }

    open spec fn wire_len() -> nat {
        24
    }

    proof fn lemma_wire_len(&self) {
        self.status.lemma_wire_len();
        self.num_sections.lemma_wire_len();
        self.sections.lemma_wire_len();
    }

    proof fn lemma_injective(&self, other: &Self) {
        self.status.lemma_wire_len();
        other.status.lemma_wire_len();
        self.num_sections.lemma_wire_len();
        other.num_sections.lemma_wire_len();
        self.sections.lemma_wire_len();
        other.sections.lemma_wire_len();
        let b = self.wire();
        assert(self.status.wire() =~= b.subrange(0, 4));
        assert(other.status.wire() =~= b.subrange(0, 4));
        self.status.lemma_injective(&other.status);
        assert(self.num_sections.wire() =~= b.subrange(4, 8));
        assert(other.num_sections.wire() =~= b.subrange(4, 8));
        self.num_sections.lemma_injective(&other.num_sections);
        assert(self.sections.wire() =~= b.subrange(8, 24));
        assert(other.sections.wire() =~= b.subrange(8, 24));
        self.sections.lemma_injective(&other.sections);
    }

    fn wire_size() -> (n: usize) {
        24
    }

    fn write_to(&self, out: &mut Vec<u8>) {
        self.status.write_to(out);
        self.num_sections.write_to(out);
        self.sections.write_to(out);
        proof {
            assert(out@ =~= old(out)@ + self.wire());
        }
    }

    fn read_at(bytes: &[u8], off: usize) -> (r: Self) {
        proof {
            wire::lemma_slice_len(bytes);
        }
        let r = Nvsp1MsgSendRecvBufComplete {
            status: u32::read_at(bytes, off),
            num_sections: u32::read_at(bytes, off + 4),
            sections: <[Nvsp1ReceiveBufferSection; 1]>::read_at(bytes, off + 8),
        };
        proof {
            r.lemma_wire_len();
            r.status.lemma_wire_len();
            r.num_sections.lemma_wire_len();
            r.sections.lemma_wire_len();
            assert(r.wire() =~= bytes@.subrange(off as int, off + 24));
        }
        r
    }
}

/// `Nvsp1MessageRevokeReceiveBuffer` body.
#[derive(Copy, Clone, Debug, PartialEq, Eq)]
pub struct Nvsp1MsgRevokeRecvBuf {
    /// Must match the id used at [`Nvsp1MsgSendBuffer::id`].
    pub id: u16,
    /// Padding.
    pub pad: u16,
}

impl Wire for Nvsp1MsgRevokeRecvBuf {
    open spec fn wire(&self) -> Seq<u8> {
        self.id.wire() + self.pad.wire()
    }

    open spec fn wire_len() -> nat {
        4
    }

    proof fn lemma_wire_len(&self) {
        self.id.lemma_wire_len();
        self.pad.lemma_wire_len();
    }

    proof fn lemma_injective(&self, other: &Self) {
        self.id.lemma_wire_len();
        other.id.lemma_wire_len();
        self.pad.lemma_wire_len();
        other.pad.lemma_wire_len();
        let b = self.wire();
        assert(self.id.wire() =~= b.subrange(0, 2));
        assert(other.id.wire() =~= b.subrange(0, 2));
        self.id.lemma_injective(&other.id);
        assert(self.pad.wire() =~= b.subrange(2, 4));
        assert(other.pad.wire() =~= b.subrange(2, 4));
        self.pad.lemma_injective(&other.pad);
    }

    fn wire_size() -> (n: usize) {
        4
    }

    fn write_to(&self, out: &mut Vec<u8>) {
        self.id.write_to(out);
        self.pad.write_to(out);
        proof {
            assert(out@ =~= old(out)@ + self.wire());
        }
    }

    fn read_at(bytes: &[u8], off: usize) -> (r: Self) {
        proof {
            wire::lemma_slice_len(bytes);
        }
        let r = Nvsp1MsgRevokeRecvBuf {
            id: u16::read_at(bytes, off),
            pad: u16::read_at(bytes, off + 2),
        };
        proof {
            r.lemma_wire_len();
            r.id.lemma_wire_len();
            r.pad.lemma_wire_len();
            assert(r.wire() =~= bytes@.subrange(off as int, off + 4));
        }
        r
    }
}

/// `Nvsp1MessageSendSendBufferComplete` body (host to guest).
#[derive(Copy, Clone, Debug, PartialEq, Eq)]
pub struct Nvsp1MsgSendSendBufComplete {
    /// See [`status`].
    pub status: u32,
    /// Host-chosen section size for the send buffer.
    pub section_size: u32,
}

impl Wire for Nvsp1MsgSendSendBufComplete {
    open spec fn wire(&self) -> Seq<u8> {
        self.status.wire() + self.section_size.wire()
    }

    open spec fn wire_len() -> nat {
        8
    }

    proof fn lemma_wire_len(&self) {
        self.status.lemma_wire_len();
        self.section_size.lemma_wire_len();
    }

    proof fn lemma_injective(&self, other: &Self) {
        self.status.lemma_wire_len();
        other.status.lemma_wire_len();
        self.section_size.lemma_wire_len();
        other.section_size.lemma_wire_len();
        let b = self.wire();
        assert(self.status.wire() =~= b.subrange(0, 4));
        assert(other.status.wire() =~= b.subrange(0, 4));
        self.status.lemma_injective(&other.status);
        assert(self.section_size.wire() =~= b.subrange(4, 8));
        assert(other.section_size.wire() =~= b.subrange(4, 8));
        self.section_size.lemma_injective(&other.section_size);
    }

    fn wire_size() -> (n: usize) {
        8
    }

    fn write_to(&self, out: &mut Vec<u8>) {
        self.status.write_to(out);
        self.section_size.write_to(out);
        proof {
            assert(out@ =~= old(out)@ + self.wire());
        }
    }

    fn read_at(bytes: &[u8], off: usize) -> (r: Self) {
        proof {
            wire::lemma_slice_len(bytes);
        }
        let r = Nvsp1MsgSendSendBufComplete {
            status: u32::read_at(bytes, off),
            section_size: u32::read_at(bytes, off + 4),
        };
        proof {
            r.lemma_wire_len();
            r.status.lemma_wire_len();
            r.section_size.lemma_wire_len();
            assert(r.wire() =~= bytes@.subrange(off as int, off + 8));
        }
        r
    }
}

/// `Nvsp1MessageSendRndisPacket` body (bidirectional).
#[derive(Copy, Clone, Debug, PartialEq, Eq)]
pub struct Nvsp1MsgSendRndisPacket {
    /// [`RMC_CONTROL`] for init/query/set, [`RMC_DATA`] for
    /// packet frames.
    pub channel_type: u32,
    /// Send-buffer section index, or [`NETVSC_INVALID_INDEX`] to
    /// use GPA-direct.
    pub send_buf_section_index: u32,
    /// Section size in bytes, or 0 when
    /// `send_buf_section_index == NETVSC_INVALID_INDEX`.
    pub send_buf_section_size: u32,
}

impl Wire for Nvsp1MsgSendRndisPacket {
    open spec fn wire(&self) -> Seq<u8> {
        self.channel_type.wire()
            + self.send_buf_section_index.wire()
            + self.send_buf_section_size.wire()
    }

    open spec fn wire_len() -> nat {
        12
    }

    proof fn lemma_wire_len(&self) {
        self.channel_type.lemma_wire_len();
        self.send_buf_section_index.lemma_wire_len();
        self.send_buf_section_size.lemma_wire_len();
    }

    proof fn lemma_injective(&self, other: &Self) {
        self.channel_type.lemma_wire_len();
        other.channel_type.lemma_wire_len();
        self.send_buf_section_index.lemma_wire_len();
        other.send_buf_section_index.lemma_wire_len();
        self.send_buf_section_size.lemma_wire_len();
        other.send_buf_section_size.lemma_wire_len();
        let b = self.wire();
        assert(self.channel_type.wire() =~= b.subrange(0, 4));
        assert(other.channel_type.wire() =~= b.subrange(0, 4));
        self.channel_type.lemma_injective(&other.channel_type);
        assert(self.send_buf_section_index.wire() =~= b.subrange(4, 8));
        assert(other.send_buf_section_index.wire() =~= b.subrange(4, 8));
        self.send_buf_section_index.lemma_injective(&other.send_buf_section_index);
        assert(self.send_buf_section_size.wire() =~= b.subrange(8, 12));
        assert(other.send_buf_section_size.wire() =~= b.subrange(8, 12));
        self.send_buf_section_size.lemma_injective(&other.send_buf_section_size);
    }

    fn wire_size() -> (n: usize) {
        12
    }

    fn write_to(&self, out: &mut Vec<u8>) {
        self.channel_type.write_to(out);
        self.send_buf_section_index.write_to(out);
        self.send_buf_section_size.write_to(out);
        proof {
            assert(out@ =~= old(out)@ + self.wire());
        }
    }

    fn read_at(bytes: &[u8], off: usize) -> (r: Self) {
        proof {
            wire::lemma_slice_len(bytes);
        }
        let r = Nvsp1MsgSendRndisPacket {
            channel_type: u32::read_at(bytes, off),
            send_buf_section_index: u32::read_at(bytes, off + 4),
            send_buf_section_size: u32::read_at(bytes, off + 8),
        };
        proof {
            r.lemma_wire_len();
            r.channel_type.lemma_wire_len();
            r.send_buf_section_index.lemma_wire_len();
            r.send_buf_section_size.lemma_wire_len();
            assert(r.wire() =~= bytes@.subrange(off as int, off + 12));
        }
        r
    }
}

/// `Nvsp1MessageSendRndisPacketComplete` body.
///
/// Only acknowledges the outgoing NVSP resource.
#[derive(Copy, Clone, Debug, PartialEq, Eq)]
pub struct Nvsp1MsgSendRndisPacketComplete {
    /// See [`status`].
    pub status: u32,
}

impl Wire for Nvsp1MsgSendRndisPacketComplete {
    open spec fn wire(&self) -> Seq<u8> {
        self.status.wire()
    }

    open spec fn wire_len() -> nat {
        4
    }

    proof fn lemma_wire_len(&self) {
        self.status.lemma_wire_len();
    }

    proof fn lemma_injective(&self, other: &Self) {
        self.status.lemma_injective(&other.status);
    }

    fn wire_size() -> (n: usize) {
        4
    }

    fn write_to(&self, out: &mut Vec<u8>) {
        self.status.write_to(out);
    }

    fn read_at(bytes: &[u8], off: usize) -> (r: Self) {
        let r = Nvsp1MsgSendRndisPacketComplete {
            status: u32::read_at(bytes, off),
        };
        r
    }
}

/// NDIS capability bits for [`Nvsp2MsgSendNdisConfig::capabilities`].
///
/// Bit 4 (`correlation_id`) is intentionally never set from the guest.
#[derive(Copy, Clone, Debug, Default, PartialEq, Eq, Structural)]
pub struct NdisCapabilities(pub u64);

impl Wire for NdisCapabilities {
    open spec fn wire(&self) -> Seq<u8> {
        self.0.wire()
    }

    open spec fn wire_len() -> nat {
        8
    }

    proof fn lemma_wire_len(&self) {
        self.0.lemma_wire_len();
    }

    proof fn lemma_injective(&self, other: &Self) {
        self.0.lemma_injective(&other.0);
    }

    fn wire_size() -> (n: usize) {
        8
    }

    fn write_to(&self, out: &mut Vec<u8>) {
        self.0.write_to(out);
    }

    fn read_at(bytes: &[u8], off: usize) -> (r: Self) {
        let r = NdisCapabilities(u64::read_at(bytes, off));
        r
    }
}

impl NdisCapabilities {
    pub const VMQ: u64 = 0x1;

    pub const CHIMNEY: u64 = 0x2;

    pub const SRIOV: u64 = 0x4;

    pub const IEEE_8021Q: u64 = 0x8;

    pub const TEAMING: u64 = 0x20;

    pub const VIRTUAL_SUBNET_ID: u64 = 0x40;

    pub const RSC_OVER_VMBUS: u64 = 0x80;

    pub const TIMESTAMP: u64 = 0x100;

    pub const RELIABLE_CORRELATION_ID: u64 = 0x200;

    pub const ALLOW_RSC_DISABLED_STATUS: u64 = 0x400;

    /// The bits of `recommended`: VLAN tagging always, SR-IOV and teaming
    /// from V5 on, and receive coalescing from V6.1 on.
    pub open spec fn recommended_bits(version: Version) -> u64 {
        match version {
            Version::V61 => 0xac,
            Version::V6 | Version::V5 => 0x2c,
            _ => 0x8,
        }
    }

    /// Recommended capability set as a function of negotiated
    /// version.
    pub fn recommended(version: Version) -> (r: Self)
        ensures
            r.0 == Self::recommended_bits(version),
    {
        let mut caps: u64 = Self::IEEE_8021Q;
        if version.raw() >= Version::V5.raw() {
            caps = caps | Self::SRIOV | Self::TEAMING;
        }
        if version.raw() >= Version::V61.raw() {
            caps = caps | Self::RSC_OVER_VMBUS;
        }
        proof {
            assert(0x8u64 | 0x4 | 0x20 == 0x2c && 0x2cu64 | 0x80 == 0xac) by (bit_vector);
        }
        NdisCapabilities(caps)
    }

    /// These capabilities and those in `rhs`.
    pub fn bitor(self, rhs: u64) -> (r: Self)
        ensures
            r.0 == self.0 | rhs,
    {
        NdisCapabilities(self.0 | rhs)
    }

    /// Add the capabilities in `rhs`.
    pub fn bitor_assign(&mut self, rhs: u64)
        ensures
            final(self).0 == old(self).0 | rhs,
    {
        self.0 = self.0 | rhs;
    }
}

/// `Nvsp2MessageSendNdisConfig` body (guest to host, no completion).
#[derive(Copy, Clone, Debug, PartialEq, Eq)]
pub struct Nvsp2MsgSendNdisConfig {
    /// Maximum Transmission Unit including Ethernet header.
    pub mtu: u32,
    /// Reserved, must be 0.
    pub reserved: u32,
    /// Bitfield of [`NdisCapabilities`].
    pub capabilities: u64,
}

impl Wire for Nvsp2MsgSendNdisConfig {
    open spec fn wire(&self) -> Seq<u8> {
        self.mtu.wire() + self.reserved.wire() + self.capabilities.wire()
    }

    open spec fn wire_len() -> nat {
        16
    }

    proof fn lemma_wire_len(&self) {
        self.mtu.lemma_wire_len();
        self.reserved.lemma_wire_len();
        self.capabilities.lemma_wire_len();
    }

    proof fn lemma_injective(&self, other: &Self) {
        self.mtu.lemma_wire_len();
        other.mtu.lemma_wire_len();
        self.reserved.lemma_wire_len();
        other.reserved.lemma_wire_len();
        self.capabilities.lemma_wire_len();
        other.capabilities.lemma_wire_len();
        let b = self.wire();
        assert(self.mtu.wire() =~= b.subrange(0, 4));
        assert(other.mtu.wire() =~= b.subrange(0, 4));
        self.mtu.lemma_injective(&other.mtu);
        assert(self.reserved.wire() =~= b.subrange(4, 8));
        assert(other.reserved.wire() =~= b.subrange(4, 8));
        self.reserved.lemma_injective(&other.reserved);
        assert(self.capabilities.wire() =~= b.subrange(8, 16));
        assert(other.capabilities.wire() =~= b.subrange(8, 16));
        self.capabilities.lemma_injective(&other.capabilities);
    }

    fn wire_size() -> (n: usize) {
        16
    }

    fn write_to(&self, out: &mut Vec<u8>) {
        self.mtu.write_to(out);
        self.reserved.write_to(out);
        self.capabilities.write_to(out);
        proof {
            assert(out@ =~= old(out)@ + self.wire());
        }
    }

    fn read_at(bytes: &[u8], off: usize) -> (r: Self) {
        proof {
            wire::lemma_slice_len(bytes);
        }
        let r = Nvsp2MsgSendNdisConfig {
            mtu: u32::read_at(bytes, off),
            reserved: u32::read_at(bytes, off + 4),
            capabilities: u64::read_at(bytes, off + 8),
        };
        proof {
            r.lemma_wire_len();
            r.mtu.lemma_wire_len();
            r.reserved.lemma_wire_len();
            r.capabilities.lemma_wire_len();
            assert(r.wire() =~= bytes@.subrange(off as int, off + 16));
        }
        r
    }
}

// ---------------------------------------------------------------------------
// Frames
// ---------------------------------------------------------------------------
/// A message in a frame of `size` bytes: header, body, zero bytes.
pub open spec fn frame(message_type: u32, body: Seq<u8>, size: int) -> Seq<u8> {
    (MessageHeader { message_type }).wire() + body + wire::zeros((size - 4 - body.len()) as nat)
}

/// Encode a NVSP message: header + body copied into a
/// zero-padded fixed-size frame ([`frame_size_for`]).
///
/// Returns `Err(())` if the frame does not fit in `out` or the header +
/// body exceed the frame size. Frame size 40 (V6.1) accepts any body
/// <= 36 bytes; frame size 28 (legacy) accepts any body <= 24 bytes.
pub fn encode_message<T: Wire>(
    message_type: u32,
    body: &T,
    version: Version,
    out: &mut [u8],
) -> (r: core::result::Result<usize, ()>)
    ensures
        match r {
            Ok(n) => {
                &&& n == frame_size(version)
                &&& n <= old(out)@.len()
                &&& 4 + T::wire_len() <= n
                &&& final(out)@ == frame(message_type, body.wire(), n as int) + old(out)@.skip(
                    n as int,
                )
            },
            Err(_) => {
                &&& old(out)@.len() < frame_size(version) || 4 + T::wire_len() > frame_size(version)
                &&& final(out)@ == old(out)@
            },
        },
{
    let size = frame_size_for(version);
    if out.len() < size {
        return Err(());
    }
    if T::wire_size() > size - 4 {
        return Err(());
    }
    let hdr = MessageHeader { message_type };
    let mut bytes = hdr.as_bytes();
    body.write_to(&mut bytes);
    let used = bytes.len();
    proof {
        hdr.lemma_wire_len();
        body.lemma_wire_len();
    }
    let ghost want = frame(message_type, body.wire(), size as int);
    let mut i: usize = 0;
    while i < size
        invariant
            i <= size <= out@.len(),
            used == bytes@.len(),
            used <= size,
            out@.len() == old(out)@.len(),
            bytes@ == hdr.wire() + body.wire(),
            want == hdr.wire() + body.wire() + wire::zeros((size - used) as nat),
            forall|j: int| 0 <= j < i ==> #[trigger] out@[j] == want[j],
            forall|j: int| i <= j < out@.len() ==> #[trigger] out@[j] == old(out)@[j],
        decreases size - i,
    {
        out[i] = if i < used {
            bytes[i]
        } else {
            0
        };
        i += 1;
    }
    proof {
        assert(out@ =~= want + old(out)@.skip(size as int));
    }
    Ok(size)
}

/// Parse an inbound NVSP frame's header and return
/// `(message_type, body_slice)`.
///
/// The body slice may include trailing padding bytes that the
/// sender zero-filled to reach [`frame_size_for`].
pub fn parse_header(frame: &[u8]) -> (r: core::result::Result<(u32, &[u8]), ()>)
    ensures
        r is Ok <==> frame@.len() >= 4,
        r matches Ok((ty, rest)) ==> ty == header_type(frame@) && rest@ == frame@.skip(4),
{
    if frame.len() < 4 {
        return Err(());
    }
    let hdr = MessageHeader::read_at(frame, 0);
    proof {
        assert(frame@.subrange(0, 4) =~= frame@.take(4));
        wire::lemma_decoded(hdr);
    }
    let rest = &frame[4..frame.len()];
    proof {
        assert(rest@ =~= frame@.skip(4));
    }
    Ok((hdr.message_type, rest))
}

/// The message type of a frame.
pub open spec fn header_type(frame: Seq<u8>) -> u32 {
    wire::decoded::<MessageHeader>(frame.take(4)).message_type
}

/// Law: the header of an encoded message is parsed back, and its body
/// follows.
pub proof fn law_parse_encoded(message_type: u32, body: Seq<u8>, size: int)
    requires
        4 + body.len() <= size,
    ensures
        header_type(frame(message_type, body, size)) == message_type,
        frame(message_type, body, size).skip(4).take(body.len() as int) == body,
        frame(message_type, body, size).len() == size,
{
    let h = MessageHeader { message_type };
    h.lemma_wire_len();
    assert(frame(message_type, body, size).take(4) =~= h.wire());
    wire::lemma_decoded(h);
    assert(frame(message_type, body, size).skip(4).take(body.len() as int) =~= body);
}

// ---------------------------------------------------------------------------
// The host's answers
// ---------------------------------------------------------------------------
/// A failure to parse, with its reason.
pub open spec fn bad(reason: &'static str) -> Error {
    Error::Parse { ty: None, reason }
}

/// What the answer to an `INIT` comes to.
pub open spec fn init_answer(reply: Seq<u8>) -> Result<bool> {
    if reply.len() < 4 {
        Err(bad("parse INIT_COMPLETE header"))
    } else if header_type(reply) != msg_type::INIT_COMPLETE {
        Err(bad("expected INIT_COMPLETE"))
    } else if reply.len() < 16 {
        Err(bad("parse INIT_COMPLETE body"))
    } else {
        Ok(
            wire::decoded::<NvspMsgInitComplete>(reply.subrange(4, 16)).status
                == status::SUCCESS,
        )
    }
}

/// Interpret the answer to an `INIT`: whether the host accepted.
pub fn parse_init_complete(reply: &[u8]) -> (r: Result<bool>)
    ensures
        r == init_answer(reply@),
{
    let (ty, body) = match parse_header(reply) {
        Ok(x) => x,
        Err(_) => return Err(
            Error::Parse { ty: None, reason: "parse INIT_COMPLETE header" },
        ),
    };
    if ty != msg_type::INIT_COMPLETE {
        return Err(Error::Parse { ty: None, reason: "expected INIT_COMPLETE" });
    }
    if body.len() < 12 {
        return Err(Error::Parse { ty: None, reason: "parse INIT_COMPLETE body" });
    }
    let parsed = NvspMsgInitComplete::read_at(body, 0);
    proof {
        assert(body@.subrange(0, 12) =~= reply@.subrange(4, 16));
        wire::lemma_decoded(parsed);
    }
    Ok(parsed.status == status::SUCCESS)
}

/// What the answer to a receive buffer of `size` bytes comes to: the
/// size and number of its sections.
pub open spec fn recv_buf_answer(reply: Seq<u8>, size: int) -> Result<(u32, u32)> {
    if reply.len() < 4 {
        Err(bad("parse SEND_RECV_BUF_COMPLETE header"))
    } else if header_type(reply) != msg_type::V1_SEND_RECV_BUF_COMPLETE {
        Err(bad("expected SEND_RECV_BUF_COMPLETE"))
    } else if reply.len() < 28 {
        Err(bad("parse SEND_RECV_BUF_COMPLETE body"))
    } else {
        let parsed = wire::decoded::<Nvsp1MsgSendRecvBufComplete>(reply.subrange(4, 28));
        let sec = parsed.sections@[0];
        if parsed.status != status::SUCCESS {
            Err(bad("recv-buf complete non-success status"))
        } else if parsed.num_sections != 1 {
            Err(bad("recv-buf num_sections != 1"))
        } else if sec.offset != 0 {
            Err(bad("recv-buf section offset != 0"))
        } else if sec.sub_alloc_size < NETVSC_MTU_MIN {
            Err(bad("recv-buf sub_alloc_size < MTU_MIN"))
        } else if sec.sub_alloc_size * sec.num_sub_allocs > size {
            Err(bad("recv-buf sub_alloc_size * count > allocation"))
        } else {
            Ok((sec.sub_alloc_size, sec.num_sub_allocs))
        }
    }
}

/// Validate the answer to a receive buffer of `size` bytes and give the
/// size and number of its sections. Checks:
/// * `status == SUCCESS`
/// * `num_sections == 1`
/// * `sections[0].offset == 0`
/// * `sub_alloc_size >= NETVSC_MTU_MIN`
/// * `sub_alloc_size * num_sub_allocs <= size`
pub fn parse_recv_buf_complete(reply: &[u8], size: usize) -> (r: Result<(u32, u32)>)
    ensures
        r == recv_buf_answer(reply@, size as int),
{
    let (ty, body) = match parse_header(reply) {
        Ok(x) => x,
        Err(_) => return Err(
            Error::Parse { ty: None, reason: "parse SEND_RECV_BUF_COMPLETE header" },
        ),
    };
    if ty != msg_type::V1_SEND_RECV_BUF_COMPLETE {
        return Err(Error::Parse { ty: None, reason: "expected SEND_RECV_BUF_COMPLETE" });
    }
    if body.len() < 24 {
        return Err(Error::Parse { ty: None, reason: "parse SEND_RECV_BUF_COMPLETE body" });
    }
    let parsed = Nvsp1MsgSendRecvBufComplete::read_at(body, 0);
    proof {
        assert(body@.subrange(0, 24) =~= reply@.subrange(4, 28));
        wire::lemma_decoded(parsed);
    }
    if parsed.status != status::SUCCESS {
        return Err(Error::Parse { ty: None, reason: "recv-buf complete non-success status" });
    }
    if parsed.num_sections != 1 {
        return Err(Error::Parse { ty: None, reason: "recv-buf num_sections != 1" });
    }
    let sec = parsed.sections[0];
    if sec.offset != 0 {
        return Err(Error::Parse { ty: None, reason: "recv-buf section offset != 0" });
    }
    if sec.sub_alloc_size < NETVSC_MTU_MIN {
        return Err(Error::Parse { ty: None, reason: "recv-buf sub_alloc_size < MTU_MIN" });
    }
    let a = sec.sub_alloc_size;
    let b = sec.num_sub_allocs;
    proof {
        assert(a * b <= 0xffff_ffff * 0xffff_ffff) by (nonlinear_arith)
            requires
                a <= 0xffff_ffff,
                b <= 0xffff_ffff,
        ;
    }
    let used: u64 = (a as u64) * (b as u64);
    if used > size as u64 {
        return Err(
            Error::Parse { ty: None, reason: "recv-buf sub_alloc_size * count > allocation" },
        );
    }
    Ok((sec.sub_alloc_size, sec.num_sub_allocs))
}

/// What the answer to a send buffer of `size` bytes comes to: the size
/// and number of its sections.
pub open spec fn send_buf_answer(reply: Seq<u8>, size: int) -> Result<(u32, u32)> {
    if reply.len() < 4 {
        Err(bad("parse SEND_SEND_BUF_COMPLETE header"))
    } else if header_type(reply) != msg_type::V1_SEND_SEND_BUF_COMPLETE {
        Err(bad("expected SEND_SEND_BUF_COMPLETE"))
    } else if reply.len() < 12 {
        Err(bad("parse SEND_SEND_BUF_COMPLETE body"))
    } else {
        let parsed = wire::decoded::<Nvsp1MsgSendSendBufComplete>(reply.subrange(4, 12));
        if parsed.status != status::SUCCESS {
            Err(bad("send-buf complete non-success status"))
        } else if parsed.section_size < NETVSC_MTU_MIN {
            Err(bad("send-buf section_size < MTU_MIN"))
        } else if size < parsed.section_size {
            Err(bad("send-buf section_size larger than buffer"))
        } else {
            Ok((parsed.section_size, (size / parsed.section_size as int) as u32))
        }
    }
}

/// Validate the answer to a send buffer of `size` bytes and give the size
/// and number of its sections. Checks:
/// * `status == SUCCESS`
/// * `section_size >= NETVSC_MTU_MIN`
/// * `size / section_size > 0`
pub fn parse_send_buf_complete(reply: &[u8], size: u32) -> (r: Result<(u32, u32)>)
    ensures
        r == send_buf_answer(reply@, size as int),
{
    let (ty, body) = match parse_header(reply) {
        Ok(x) => x,
        Err(_) => return Err(
            Error::Parse { ty: None, reason: "parse SEND_SEND_BUF_COMPLETE header" },
        ),
    };
    if ty != msg_type::V1_SEND_SEND_BUF_COMPLETE {
        return Err(Error::Parse { ty: None, reason: "expected SEND_SEND_BUF_COMPLETE" });
    }
    if body.len() < 8 {
        return Err(Error::Parse { ty: None, reason: "parse SEND_SEND_BUF_COMPLETE body" });
    }
    let parsed = Nvsp1MsgSendSendBufComplete::read_at(body, 0);
    proof {
        assert(body@.subrange(0, 8) =~= reply@.subrange(4, 12));
        wire::lemma_decoded(parsed);
    }
    if parsed.status != status::SUCCESS {
        return Err(Error::Parse { ty: None, reason: "send-buf complete non-success status" });
    }
    if parsed.section_size < NETVSC_MTU_MIN {
        return Err(Error::Parse { ty: None, reason: "send-buf section_size < MTU_MIN" });
    }
    let count = size / parsed.section_size;
    proof {
        let d = parsed.section_size;
        assert(size < d ==> size / d == 0) by (nonlinear_arith)
            requires
                d > 0,
        ;
        assert(size >= d ==> size / d >= 1) by (nonlinear_arith)
            requires
                d > 0,
        ;
    }
    if count == 0 {
        return Err(
            Error::Parse { ty: None, reason: "send-buf section_size larger than buffer" },
        );
    }
    Ok((parsed.section_size, count))
}

// ---------------------------------------------------------------------------
// Netvsp handle
// ---------------------------------------------------------------------------
/// Page-aligned buffer with its GPADL registration.
///
/// Kept for the lifetime of the netvsp connection: the host retains
/// references to the underlying pages through the GPADL.
#[derive(Copy, Clone, Debug, PartialEq, Eq, Structural)]
pub struct OwnedBuf {
    /// Guest-physical address of the first page.
    pub base_gpa: u64,
    /// Size in bytes (multiple of 4096).
    pub len: usize,
    /// Registered GPADL for this buffer.
    pub gpadl: GpadlHandle,
}

/// Data pages of a ring, per direction.
pub const RING_DATA_PAGES: usize = 8;

/// Data bytes of a ring, per direction.
pub const RING_DATA_BYTES: usize = 32768;

/// Pages of both rings: a control page and data pages each.
pub const RING_TOTAL_PAGES: usize = 18;

/// Bytes of both rings.
pub const RING_REGION_BYTES: usize = 73728;

/// Offset of the send ring's control page in the region.
pub const SEND_CTRL_OFFSET: usize = 0;

/// Offset of the send ring's data in the region.
pub const SEND_DATA_OFFSET: usize = 4096;

/// Offset of the recv ring's control page in the region.
pub const RECV_CTRL_OFFSET: usize = 36864;

/// Offset of the recv ring's data in the region.
pub const RECV_DATA_OFFSET: usize = 40960;

/// Law: the region is laid out without gaps or overlaps: send control
/// page, send data, recv control page, recv data.
pub proof fn law_ring_layout()
    ensures
        RING_DATA_BYTES == RING_DATA_PAGES * 4096,
        RING_TOTAL_PAGES == 2 * (1 + RING_DATA_PAGES),
        RING_REGION_BYTES == RING_TOTAL_PAGES * 4096,
        SEND_CTRL_OFFSET == 0,
        SEND_DATA_OFFSET == SEND_CTRL_OFFSET + 4096,
        RECV_CTRL_OFFSET == SEND_DATA_OFFSET + RING_DATA_BYTES,
        RECV_DATA_OFFSET == RECV_CTRL_OFFSET + 4096,
        RING_REGION_BYTES == RECV_DATA_OFFSET + RING_DATA_BYTES,
{
}

/// A zeroed, page-aligned, contiguous region of [`RING_REGION_BYTES`]
/// bytes that the platform allocated for both rings.
pub struct RingRegion<M: RingMem> {
    /// Guest-physical address of the region.
    pub base_gpa: u64,
    /// The send ring's memory in it.
    pub send_mem: M,
    /// The recv ring's memory in it.
    pub recv_mem: M,
}

/// Reasonable default retry budget for ring-buffer completion polling.
pub const DEFAULT_MAX_POLLS: usize = 100_000_000;

/// Size of the buffer that completions are read into: room for 512 bytes
/// after the descriptor, and 8 more, because [`RecvRing::read`] asks for all
/// of the packet but its footer.
pub const COMPLETION_BUFFER_SIZE: usize = 520;

/// The page frames of `n` contiguous pages from `base_gpa` on.
pub open spec fn page_frames(base_gpa: u64, n: nat) -> Seq<u64> {
    Seq::new(n, |i: int| ((base_gpa + i * 4096) / 4096) as u64)
}

/// The page frame numbers of `n` contiguous pages from `base_gpa` on.
pub fn list_page_frames(base_gpa: u64, n: usize) -> (r: Vec<u64>)
    requires
        base_gpa + n * 4096 <= u64::MAX,
    ensures
        r@ == page_frames(base_gpa, n as nat),
{
    let mut pfns: Vec<u64> = Vec::new();
    let mut i: usize = 0;
    while i < n
        invariant
            i <= n,
            base_gpa + n * 4096 <= u64::MAX,
            pfns@ == page_frames(base_gpa, i as nat),
        decreases n - i,
    {
        let at: u64 = base_gpa + (i as u64) * 4096;
        pfns.push(at / 4096);
        i += 1;
        proof {
            assert(pfns@ =~= page_frames(base_gpa, i as nat));
        }
    }
    pfns
}

/// Guest-side handle to an open Hyper-V synthetic NIC channel.
pub struct Netvsp<M: RingMem> {
    /// The channel and its ring.
    pub link: Link<M>,
    /// Negotiated NVSP version, or [`INVALID_PROTOCOL_VERSION`] until
    /// [`Self::negotiate_version`] succeeds.
    pub version: u32,
    /// Fresh id counter for outgoing completion-requested sends.
    /// Starts at 1; 0 is reserved for "no completion".
    pub next_transaction_id: u64,
    /// Receive buffer + GPADL registered with the host.
    /// Populated by [`Self::establish_recv_buffer`].
    pub recv_buf: Option<OwnedBuf>,
    /// `sub_alloc_size` reported by the host in the recv-buf
    /// completion. Non-zero means the recv buffer is live.
    pub recv_section_size: u32,
    /// Number of receive sub-allocations.
    pub recv_section_count: u32,
    /// Send buffer + GPADL. Populated by
    /// [`Self::establish_send_buffer`].
    pub send_buf: Option<OwnedBuf>,
    /// `section_size` reported by the host in the send-buf completion.
    pub send_section_size: u32,
    /// Send-section count: buffer size over section size.
    pub send_section_count: u32,
}

/// What a read means to a wait for the completion of `tid`: the
/// completion decides it, a failure ends it, anything else is passed
/// over.
pub open spec fn completion_verdict(tid: u64, out: Result<InPacket>) -> Option<Result<Seq<u8>>> {
    match out {
        Ok(p) => if p.descriptor.packet_type.0 == PacketType::VM_PKT_COMP
            && p.descriptor.transaction_id == tid {
            Some(Ok(p.payload))
        } else {
            None
        },
        Err(Error::RingEmpty) => None,
        Err(e) => Some(Err(e)),
    }
}

/// Sending `frame` as transaction `tid` and waiting for its completion
/// went like this.
pub open spec fn request_run<M: RingMem>(
    link: Link<M>,
    frame: Seq<u8>,
    tid: u64,
    limit: nat,
    log: (Seq<HvEvent>, Seq<HvEvent>),
    next: Link<M>,
    reply: Result<Seq<u8>>,
) -> bool {
    exists|mid: Link<M>, sent: Result<()>| #[trigger]
        link.posted(link::inband(frame, PacketFlags(1), tid), log, mid, sent) && match sent {
            Err(e) => next == mid && reply == Err::<Seq<u8>, Error>(e),
            Ok(_) => {
                &&& next.channel == mid.channel
                &&& next.send == mid.send
                &&& exists|outs: Seq<Result<InPacket>>| #[trigger]
                    mid.recv.read_run(COMPLETION_BUFFER_SIZE as int, outs, next.recv) && (
                    link::stops(outs, |o| completion_verdict(tid, o), limit, Some(reply)) || (reply
                        == Err::<Seq<u8>, Error>(Error::Timeout) && link::stops(
                        outs,
                        |o| completion_verdict(tid, o),
                        limit,
                        None,
                    )))
            },
        }
}

/// The transaction id that follows `tid`, passing over 0.
pub open spec fn next_tid(tid: u64) -> u64 {
    if tid == u64::MAX {
        1
    } else {
        (tid + 1) as u64
    }
}

/// Law: the ids of transactions that wait for a completion start at 1 and
/// never come to 0, which stands for "no completion"; two in a row differ.
pub proof fn law_transaction_ids(tid: u64)
    requires
        tid != 0,
    ensures
        next_tid(tid) != 0,
        next_tid(tid) != tid,
{
}

impl<M: RingMem> Netvsp<M> {
    /// Both halves of the ring have the shape of a ring.
    pub open spec fn wf(&self) -> bool {
        self.link.wf()
    }

    /// Everything but the link and the transaction counter is as in
    /// `self`.
    pub open spec fn same_settings(self, next: Self) -> bool {
        &&& next.version == self.version
        &&& next.recv_buf == self.recv_buf
        &&& next.recv_section_size == self.recv_section_size
        &&& next.recv_section_count == self.recv_section_count
        &&& next.send_buf == self.send_buf
        &&& next.send_section_size == self.send_section_size
        &&& next.send_section_count == self.send_section_count
    }

    /// Asking the host with `frame` went like this: a transaction id is
    /// used up unless the channel is gone.
    pub open spec fn asked(
        self,
        frame: Seq<u8>,
        limit: nat,
        log: (Seq<HvEvent>, Seq<HvEvent>),
        next: Self,
        reply: Result<Seq<u8>>,
    ) -> bool {
        &&& self.same_settings(next)
        &&& next.next_transaction_id == (if self.link.channel.state == ChannelState::Open {
            next_tid(self.next_transaction_id)
        } else {
            self.next_transaction_id
        })
        &&& request_run(
            self.link,
            frame,
            self.next_transaction_id,
            limit,
            log,
            next.link,
            reply,
        )
    }

    /// Post an NVSP frame with the completion-requested flag and
    /// spin until we receive a matching `VM_PKT_COMP`. Returns the
    /// completion frame's payload bytes.
    fn send_and_await<C: HypercallTrait>(
        &mut self,
        ctx: &mut HvCtx<C>,
        frame: &[u8],
        max_polls: usize,
    ) -> (r: Result<Vec<u8>>)
        requires
            old(self).wf(),
        ensures
            old(ctx).ran_to(*final(ctx)),
            final(self).wf(),
            old(self).asked(
                frame@,
                max_polls as nat,
                (old(ctx).log(), final(ctx).log()),
                *final(self),
                match r {
                    Ok(v) => Ok(v@),
                    Err(e) => Err(e),
                },
            ),
    {
        if self.link.channel.state != ChannelState::Open {
            proof {
                let sent: Result<()> = Err(Error::Rescinded);
                assert(self.link.posted(
                    link::inband(frame@, PacketFlags(1), self.next_transaction_id),
                    (ctx.log(), ctx.log()),
                    self.link,
                    sent,
                ));
            }
            return Err(Error::Rescinded);
        }
        let tid = self.alloc_transaction_id();
        let mut flags = PacketFlags::new();
        flags.set_request_completion(true);
        proof {
            assert(0u16 | 0x1 == 1) by (bit_vector);
        }
        let sent = self.link.post(ctx, frame, flags, tid);
        let ghost mid = self.link;
        proof {
            assert(old(self).link.posted(
                link::inband(frame@, PacketFlags(1), tid),
                (old(ctx).log(), ctx.log()),
                mid,
                sent,
            ));
        }
        match sent {
            Ok(()) => {},
            Err(e) => return Err(e),
        }
        let mut recv_buf: [u8; 520] = [0;520];
        let ghost mut outs: Seq<Result<InPacket>> = Seq::empty();
        let mut i: usize = 0;
        while i < max_polls
            invariant
                old(ctx).ran_to(*ctx),
                i <= max_polls,
                self.wf(),
                self.link.channel == mid.channel,
                self.link.send == mid.send,
                old(self).same_settings(*self),
                old(self).link.channel.state == ChannelState::Open,
                self.next_transaction_id == next_tid(old(self).next_transaction_id),
                tid == old(self).next_transaction_id,
                mid.recv.read_run(COMPLETION_BUFFER_SIZE as int, outs, self.link.recv),
                outs.len() == i,
                forall|j: int|
                    0 <= j < outs.len() ==> completion_verdict(tid, #[trigger] outs[j]) is None,
                old(self).link.posted(
                    link::inband(frame@, PacketFlags(1), tid),
                    (old(ctx).log(), ctx.log()),
                    mid,
                    sent,
                ),
                sent is Ok,
            decreases max_polls - i,
        {
            let ghost before = self.link.recv;
            match self.link.recv.read(&mut recv_buf) {
                Ok(pkt) => {
                    let found = pkt.descriptor.packet_type.0 == PacketType::VM_PKT_COMP
                        && pkt.descriptor.transaction_id == tid;
                    let mut copy: Vec<u8> = Vec::new();
                    if found {
                        copy.extend_from_slice(pkt.payload);
                        proof {
                            assert(copy@ =~= pkt.payload@);
                        }
                    }
                    proof {
                        let out: Result<InPacket> = Ok(
                            InPacket {
                                descriptor: pkt.descriptor,
                                ext_header: recv_buf@.take(pkt.ext_header_len as int),
                                payload: pkt.payload@,
                            },
                        );
                        mid.recv.lemma_read_run_push(
                            COMPLETION_BUFFER_SIZE as int,
                            outs,
                            before,
                            out,
                            self.link.recv,
                        );
                        outs = outs.push(out);
                    }
                    if found {
                        proof {
                            let reply: Result<Seq<u8>> = Ok(copy@);
                            assert(link::stops(
                                outs,
                                |o| completion_verdict(tid, o),
                                max_polls as nat,
                                Some(reply),
                            ));
                        }
                        return Ok(copy);
                    }
                },
                Err(e) => {
                    proof {
                        let out: Result<InPacket> = Err(e);
                        mid.recv.lemma_read_run_push(
                            COMPLETION_BUFFER_SIZE as int,
                            outs,
                            before,
                            out,
                            self.link.recv,
                        );
                        outs = outs.push(out);
                    }
                    match e {
                        Error::RingEmpty => spin_once(),
                        _ => {
                            proof {
                                let reply: Result<Seq<u8>> = Err(e);
                                assert(link::stops(
                                    outs,
                                    |o| completion_verdict(tid, o),
                                    max_polls as nat,
                                    Some(reply),
                                ));
                            }
                            return Err(e);
                        },
                    }
                },
            }
            i += 1;
        }
        proof {
            let none: Option<Result<Seq<u8>>> = None;
            assert(link::stops(outs, |o| completion_verdict(tid, o), max_polls as nat, none));
        }
        Err(Error::Timeout)
    }

    /// Post an NVSP frame **without** the completion flag. Used for
    /// messages which have no reply per protocol.
    fn send_no_completion<C: HypercallTrait>(
        &mut self,
        ctx: &mut HvCtx<C>,
        frame: &[u8],
    ) -> (r: Result<()>)
        requires
            old(self).wf(),
        ensures
            old(ctx).ran_to(*final(ctx)),
            final(self).wf(),
            old(self).same_settings(*final(self)),
            final(self).next_transaction_id == old(self).next_transaction_id,
            old(self).link.posted(
                link::inband(frame@, PacketFlags(0), 0),
                (old(ctx).log(), final(ctx).log()),
                final(self).link,
                r,
            ),
    {
        self.link.post(ctx, frame, PacketFlags::new(), 0)
    }

    /// A fresh transaction id. 0 is never used.
    fn alloc_transaction_id(&mut self) -> (r: u64)
        ensures
            r == old(self).next_transaction_id,
            final(self).next_transaction_id == next_tid(old(self).next_transaction_id),
            final(self).link == old(self).link,
            old(self).same_settings(*final(self)),
    {
        let tid = self.next_transaction_id;
        self.next_transaction_id = if tid == u64::MAX {
            1
        } else {
            tid + 1
        };
        tid
    }

    /// The negotiated version, converted back to the typed enum.
    /// Errors if negotiation hasn't happened yet.
    pub fn version_typed(&self) -> (r: Result<Version>)
        ensures
            r == version_of(self.version),
    {
        let v = self.version;
        if v == Version::V1.raw() {
            Ok(Version::V1)
        } else if v == Version::V2.raw() {
            Ok(Version::V2)
        } else if v == Version::V4.raw() {
            Ok(Version::V4)
        } else if v == Version::V5.raw() {
            Ok(Version::V5)
        } else if v == Version::V6.raw() {
            Ok(Version::V6)
        } else if v == Version::V61.raw() {
            Ok(Version::V61)
        } else {
            Err(Error::VersionMismatch)
        }
    }

    /// Section size reported by the host for the receive buffer.
    /// Zero until [`Self::establish_recv_buffer`] succeeds.
    pub fn recv_section_size(&self) -> (r: u32)
        ensures
            r == self.recv_section_size,
    {
        self.recv_section_size
    }

    /// Section size reported by the host for the send buffer.
    /// Zero until [`Self::establish_send_buffer`] succeeds.
    pub fn send_section_size(&self) -> (r: u32)
        ensures
            r == self.send_section_size,
    {
        self.send_section_size
    }

    /// Recover the underlying channel for closing.
    pub fn into_channel(self) -> (r: Channel)
        ensures
            r == self.link.channel,
    {
        self.link.channel
    }
}

// ---------------------------------------------------------------------------
// Bring-up
// ---------------------------------------------------------------------------
/// What an answer to an `INIT` comes to, if there is one.
pub open spec fn init_outcome(reply: Result<Seq<u8>>) -> Result<bool> {
    match reply {
        Ok(bytes) => init_answer(bytes),
        Err(e) => Err(e),
    }
}

/// The `INIT` for `version`. It always has the legacy size, so that older
/// hosts can be negotiated with.
pub open spec fn init_frame(version: Version) -> Seq<u8> {
    frame(
        msg_type::INIT,
        (NvspMsgInit {
            protocol_version: version.number(),
            protocol_version2: version.number(),
        }).wire(),
        28,
    )
}

/// Asking for `version` went like this.
pub open spec fn tried<M: RingMem>(
    nic: Netvsp<M>,
    version: Version,
    log: (Seq<HvEvent>, Seq<HvEvent>),
    next: Netvsp<M>,
    r: Result<bool>,
) -> bool {
    exists|reply: Result<Seq<u8>>| #[trigger]
        nic.asked(init_frame(version), DEFAULT_MAX_POLLS as nat, log, next, reply) && r
            == init_outcome(reply)
}

/// Walking `ladder` went like this: each version is asked for in turn,
/// until the host accepts one; a refusal or a timeout leads on to the
/// next.
pub open spec fn ladder_walk<M: RingMem>(
    nic: Netvsp<M>,
    ladder: Seq<Version>,
    log: (Seq<HvEvent>, Seq<HvEvent>),
    next: Netvsp<M>,
    r: Result<Version>,
) -> bool
    decreases ladder.len(),
{
    if ladder.len() == 0 {
        &&& next == nic
        &&& log.1 == log.0
        &&& r == Err::<Version, Error>(Error::VersionMismatch)
    } else {
        exists|mid: Netvsp<M>, mid_log: Seq<HvEvent>, t: Result<bool>| #[trigger]
            tried(nic, ladder[0], (log.0, mid_log), mid, t) && match t {
                Ok(true) => {
                    &&& log.1 == mid_log
                    &&& next == (Netvsp { version: ladder[0].number(), ..mid })
                    &&& r == Ok::<Version, Error>(ladder[0])
                },
                Ok(false) | Err(Error::Timeout) => ladder_walk(
                    mid,
                    ladder.drop_first(),
                    (mid_log, log.1),
                    next,
                    r,
                ),
                Err(e) => {
                    &&& log.1 == mid_log
                    &&& next == mid
                    &&& r == Err::<Version, Error>(e)
                },
            }
    }
}

/// A version that was not accepted, and the rest of the walk.
proof fn lemma_walk_on<M: RingMem>(
    nic: Netvsp<M>,
    ladder: Seq<Version>,
    log: (Seq<HvEvent>, Seq<HvEvent>),
    mid: Netvsp<M>,
    mid_log: Seq<HvEvent>,
    t: Result<bool>,
    next: Netvsp<M>,
    r: Result<Version>,
)
    requires
        ladder.len() > 0,
        tried(nic, ladder[0], (log.0, mid_log), mid, t),
        t == Ok::<bool, Error>(false) || t == Err::<bool, Error>(Error::Timeout),
        ladder_walk(mid, ladder.drop_first(), (mid_log, log.1), next, r),
    ensures
        ladder_walk(nic, ladder, log, next, r),
{
}

/// A version that decided the walk.
proof fn lemma_walk_ends<M: RingMem>(
    nic: Netvsp<M>,
    ladder: Seq<Version>,
    log: (Seq<HvEvent>, Seq<HvEvent>),
    mid: Netvsp<M>,
    t: Result<bool>,
    next: Netvsp<M>,
    r: Result<Version>,
)
    requires
        ladder.len() > 0,
        tried(nic, ladder[0], log, mid, t),
        match t {
            Ok(yes) => yes && next == (Netvsp { version: ladder[0].number(), ..mid }) && r == Ok::<
                Version,
                Error,
            >(ladder[0]),
            Err(e) => e != Error::Timeout && next == mid && r == Err::<Version, Error>(e),
        },
    ensures
        ladder_walk(nic, ladder, log, next, r),
{
    assert(tried(nic, ladder[0], (log.0, log.1), mid, t));
}

/// Why a buffer of `size` bytes cannot be registered, if it cannot.
/// `base_gpa` is where the platform allocated it, `None` where it could
/// not.
pub open spec fn buffer_error(size: usize, base_gpa: Option<u64>) -> Option<Error> {
    if size % 4096 != 0 || size == 0 {
        Some(bad("GPADL buffer size must be a positive multiple of 4096"))
    } else if size > isize::MAX - 4095 {
        Some(bad("GPADL buffer layout invalid"))
    } else if base_gpa is None {
        Some(bad("GPADL buffer allocation failed"))
    } else {
        None
    }
}

/// The low 32 bits of a size.
pub open spec fn low32(size: usize) -> u32 {
    (size as int % 0x1_0000_0000) as u32
}

/// Registering a buffer went like this.
pub open spec fn buffer_made<H: ConnectResultHandler>(
    state: (VmbusState<H>, VmbusState<H>),
    log: (Seq<HvEvent>, Seq<HvEvent>),
    channel_id: ChannelId,
    size: usize,
    base_gpa: Option<u64>,
    r: Result<OwnedBuf>,
) -> bool {
    match buffer_error(size, base_gpa) {
        Some(e) => {
            &&& r == Err::<OwnedBuf, Error>(e)
            &&& log.1 == log.0
            &&& state.1 == state.0
        },
        None => gpadl::made(
            state,
            log,
            channel_id,
            low32(size),
            page_frames(base_gpa->0, (size / 4096) as nat),
            match r {
                Ok(buf) => Ok(buf.gpadl),
                Err(e) => Err(e),
            },
        ) && (r matches Ok(buf) ==> buf.base_gpa == base_gpa->0 && buf.len == size),
    }
}

/// What a registered buffer can be: small enough for the host's page
/// list, and within the address space.
pub open spec fn buffer_fits(size: usize, base_gpa: Option<u64>) -> bool {
    buffer_error(size, base_gpa) is None ==> {
        &&& base_gpa->0 + size <= u64::MAX
        &&& size <= u32::MAX ==> size / 4096 <= 8190
    }
}

/// Register a page-aligned buffer of `size` bytes as a GPADL on
/// `channel_id`.
///
/// `size` must be a multiple of 4096.
fn allocate_gpadl_buffer<C: HypercallTrait, H: ConnectResultHandler>(
    ctx: &mut HvCtx<C>,
    state: &mut VmbusState<H>,
    channel_id: ChannelId,
    size: usize,
    base_gpa: Option<u64>,
) -> (r: Result<OwnedBuf>)
    requires
        buffer_fits(size, base_gpa),
    ensures
        old(ctx).ran_to(*final(ctx)),
        buffer_made(
            (*old(state), *final(state)),
            (old(ctx).log(), final(ctx).log()),
            channel_id,
            size,
            base_gpa,
            r,
        ),
{
    if size % 4096 != 0 || size == 0 {
        return Err(
            Error::Parse {
                ty: None,
                reason: "GPADL buffer size must be a positive multiple of 4096",
            },
        );
    }
    if size > isize::MAX as usize - 4095 {
        return Err(Error::Parse { ty: None, reason: "GPADL buffer layout invalid" });
    }
    let base = match base_gpa {
        Some(base) => base,
        None => return Err(Error::Parse { ty: None, reason: "GPADL buffer allocation failed" }),
    };
    let pfns = list_page_frames(base, size / 4096);
    let total = (size as u64 % 0x1_0000_0000) as u32;
    proof {
        if gpadl::region_error(total, pfns@.len() as int) is None {
            assert(pfns@.len() == total / 4096);
            assert(size <= u32::MAX);
        }
    }
    match establish_gpadl(ctx, state, channel_id, total, pfns.as_slice()) {
        Ok(gpadl) => Ok(OwnedBuf { base_gpa: base, len: size, gpadl }),
        Err(e) => Err(e),
    }
}

/// The message that hands a buffer over.
pub open spec fn buffer_frame(
    message_type: u32,
    gpadl: GpadlHandle,
    id: u16,
    version: Version,
) -> Seq<u8> {
    frame(
        message_type,
        (Nvsp1MsgSendBuffer { gpadl_handle: gpadl.gpadl_id.0, id, pad: 0 }).wire(),
        frame_size(version),
    )
}

/// What the host's answer about a buffer of `size` bytes comes to, if
/// there is one: its sections. `receive` tells the receive buffer from
/// the send buffer.
pub open spec fn sections_outcome(receive: bool, size: usize, reply: Result<Seq<u8>>) -> Result<
    (u32, u32),
> {
    match reply {
        Ok(bytes) => if receive {
            recv_buf_answer(bytes, size as int)
        } else {
            send_buf_answer(bytes, low32(size) as int)
        },
        Err(e) => Err(e),
    }
}

/// The message that hands a receive or a send buffer over.
pub open spec fn handover_frame(receive: bool, gpadl: GpadlHandle, version: Version) -> Seq<u8> {
    if receive {
        buffer_frame(msg_type::V1_SEND_RECV_BUF, gpadl, NETVSC_RECEIVE_BUFFER_ID, version)
    } else {
        buffer_frame(msg_type::V1_SEND_SEND_BUF, gpadl, NETVSC_SEND_BUFFER_ID, version)
    }
}

/// Handing `buf` over to the host went like this: not at all before a
/// version was negotiated; otherwise the host is asked, and what it
/// answers decides.
pub open spec fn buffer_handed<M: RingMem>(
    nic: Netvsp<M>,
    receive: bool,
    buf: OwnedBuf,
    log: (Seq<HvEvent>, Seq<HvEvent>),
    next: Netvsp<M>,
    r: Result<(u32, u32)>,
) -> bool {
    match version_of(nic.version) {
        Err(e) => {
            &&& next == nic
            &&& log.1 == log.0
            &&& r == Err::<(u32, u32), Error>(e)
        },
        Ok(version) => exists|reply: Result<Seq<u8>>| #[trigger]
            nic.asked(
                handover_frame(receive, buf.gpadl, version),
                DEFAULT_MAX_POLLS as nat,
                log,
                next,
                reply,
            ) && r == sections_outcome(receive, buf.len, reply),
    }
}

/// Opening the NIC's channel over the guest's state went like this: the
/// ring region is published first, then the channel opened.
pub open spec fn nic_opened<M: RingMem, H: ConnectResultHandler>(
    state: (VmbusState<H>, VmbusState<H>),
    log: (Seq<HvEvent>, Seq<HvEvent>),
    offer: OfferChannel,
    region: Option<RingRegion<M>>,
    r: Result<Netvsp<M>>,
) -> bool {
    match region {
        None => {
            &&& r == Err::<Netvsp<M>, Error>(bad("netvsp ring allocation failed"))
            &&& log.1 == log.0
            &&& state.1 == state.0
        },
        Some(g) => exists|mid: VmbusState<H>, mid_log: Seq<HvEvent>, ring: Result<GpadlHandle>|
            #[trigger]
            gpadl::made(
                (state.0, mid),
                (log.0, mid_log),
                offer.channel_id,
                RING_REGION_BYTES as u32,
                page_frames(g.base_gpa, 18),
                ring,
            ) && opened_after((mid, state.1), (mid_log, log.1), offer, g, ring, r),
    }
}

/// What follows once the ring region was published, or was not.
pub open spec fn opened_after<M: RingMem, H: ConnectResultHandler>(
    state: (VmbusState<H>, VmbusState<H>),
    log: (Seq<HvEvent>, Seq<HvEvent>),
    offer: OfferChannel,
    g: RingRegion<M>,
    ring: Result<GpadlHandle>,
    r: Result<Netvsp<M>>,
) -> bool {
    match ring {
        Err(e) => {
            &&& state.1 == state.0
            &&& log.1 == log.0
            &&& r == Err::<Netvsp<M>, Error>(e)
        },
        Ok(handle) => {
            &&& channel::opened_over(
                state,
                log,
                offer.channel_id,
                handle,
                RING_DATA_PAGES as u32,
                offer.connection_id,
                (offer.channel_id.0 % 65536) as u16,
                match r {
                    Ok(nic) => Ok(nic.link.channel),
                    Err(e) => Err(e),
                },
            )
            &&& r matches Ok(nic) ==> nic.fresh(g.send_mem, g.recv_mem)
        },
    }
}

/// Publishing, and what came after it.
proof fn lemma_nic_opened<M: RingMem, H: ConnectResultHandler>(
    state: (VmbusState<H>, VmbusState<H>),
    log: (Seq<HvEvent>, Seq<HvEvent>),
    offer: OfferChannel,
    region: Option<RingRegion<M>>,
    mid: VmbusState<H>,
    mid_log: Seq<HvEvent>,
    ring: Result<GpadlHandle>,
    r: Result<Netvsp<M>>,
)
    requires
        region is Some,
        gpadl::made(
            (state.0, mid),
            (log.0, mid_log),
            offer.channel_id,
            RING_REGION_BYTES as u32,
            page_frames(region->0.base_gpa, 18),
            ring,
        ),
        opened_after((mid, state.1), (mid_log, log.1), offer, region->0, ring, r),
    ensures
        nic_opened(state, log, offer, region, r),
{
}

/// Sending the NDIS configuration went like this.
pub open spec fn config_sent<M: RingMem>(
    nic: Netvsp<M>,
    mtu: u32,
    log: (Seq<HvEvent>, Seq<HvEvent>),
    next: Netvsp<M>,
    r: Result<()>,
) -> bool {
    &&& nic.same_settings(next)
    &&& next.next_transaction_id == nic.next_transaction_id
    &&& match version_of(nic.version) {
        Err(e) => {
            &&& r == Err::<(), Error>(e)
            &&& next == nic
            &&& log.1 == log.0
        },
        Ok(version) => if version == Version::V1 {
            &&& r == Ok::<(), Error>(())
            &&& next == nic
            &&& log.1 == log.0
        } else {
            nic.link.posted(
                link::inband(
                    frame(
                        msg_type::V2_SEND_NDIS_CONFIG,
                        (Nvsp2MsgSendNdisConfig {
                            mtu,
                            reserved: 0,
                            capabilities: NdisCapabilities::recommended_bits(version),
                        }).wire(),
                        frame_size(version),
                    ),
                    PacketFlags(0),
                    0,
                ),
                log,
                next.link,
                r,
            )
        },
    }
}

/// Sending the NDIS version went like this.
pub open spec fn ndis_version_sent<M: RingMem>(
    nic: Netvsp<M>,
    log: (Seq<HvEvent>, Seq<HvEvent>),
    next: Netvsp<M>,
    r: Result<()>,
) -> bool {
    &&& nic.same_settings(next)
    &&& next.next_transaction_id == nic.next_transaction_id
    &&& match version_of(nic.version) {
        Err(e) => {
            &&& r == Err::<(), Error>(e)
            &&& next == nic
            &&& log.1 == log.0
        },
        Ok(version) => nic.link.posted(
            link::inband(
                frame(
                    msg_type::V1_SEND_NDIS_VERSION,
                    (Nvsp1MsgSendNdisVersion {
                        ndis_major_version: 6,
                        ndis_minor_version: if version.number() <= Version::V4.number() {
                            1
                        } else {
                            30
                        },
                    }).wire(),
                    frame_size(version),
                ),
                PacketFlags(0),
                0,
            ),
            log,
            next.link,
            r,
        ),
    }
}

/// Establishing the receive buffer, or the send buffer, went like this.
/// A buffer that is there already is kept. Otherwise it is registered and
/// handed to the host, whose answer decides.
pub open spec fn buffer_established<M: RingMem, H: ConnectResultHandler>(
    nic: Netvsp<M>,
    receive: bool,
    state: (VmbusState<H>, VmbusState<H>),
    log: (Seq<HvEvent>, Seq<HvEvent>),
    size: usize,
    base_gpa: Option<u64>,
    next: Netvsp<M>,
    r: Result<()>,
) -> bool {
    if receive && nic.recv_buf is Some {
        &&& r == Err::<(), Error>(bad("recv buffer already established"))
        &&& next == nic
        &&& state.1 == state.0
        &&& log.1 == log.0
    } else if !receive && nic.send_buf is Some {
        &&& r == Err::<(), Error>(bad("send buffer already established"))
        &&& next == nic
        &&& state.1 == state.0
        &&& log.1 == log.0
    } else {
        exists|mid_log: Seq<HvEvent>, made: Result<OwnedBuf>| #[trigger]
            buffer_made(
                (state.0, state.1),
                (log.0, mid_log),
                nic.link.channel.channel_id,
                size,
                base_gpa,
                made,
            ) && buffer_settled(nic, receive, (mid_log, log.1), made, next, r)
    }
}

/// What follows once a buffer was registered, or was not.
pub open spec fn buffer_settled<M: RingMem>(
    nic: Netvsp<M>,
    receive: bool,
    log: (Seq<HvEvent>, Seq<HvEvent>),
    made: Result<OwnedBuf>,
    next: Netvsp<M>,
    r: Result<()>,
) -> bool {
    match made {
        Err(e) => {
            &&& r == Err::<(), Error>(e)
            &&& next == nic
            &&& log.1 == log.0
        },
        Ok(buf) => exists|mid: Netvsp<M>, answer: Result<(u32, u32)>| #[trigger]
            buffer_handed(nic, receive, buf, (log.0, log.1), mid, answer) && match answer {
                Err(e) => r == Err::<(), Error>(e) && next == mid,
                Ok(sections) => {
                    &&& r == Ok::<(), Error>(())
                    &&& next == mid.with_buffer(receive, buf, sections)
                },
            },
    }
}

/// Registering a buffer, and what came after it.
proof fn lemma_buffer_established<M: RingMem, H: ConnectResultHandler>(
    nic: Netvsp<M>,
    receive: bool,
    state: (VmbusState<H>, VmbusState<H>),
    log: (Seq<HvEvent>, Seq<HvEvent>),
    size: usize,
    base_gpa: Option<u64>,
    next: Netvsp<M>,
    r: Result<()>,
    mid_log: Seq<HvEvent>,
    made: Result<OwnedBuf>,
)
    requires
        receive ==> nic.recv_buf is None,
        !receive ==> nic.send_buf is None,
        buffer_made(
            (state.0, state.1),
            (log.0, mid_log),
            nic.link.channel.channel_id,
            size,
            base_gpa,
            made,
        ),
        buffer_settled(nic, receive, (mid_log, log.1), made, next, r),
    ensures
        buffer_established(nic, receive, state, log, size, base_gpa, next, r),
{
}

/// Handing a buffer over, and what came after it.
proof fn lemma_buffer_settled<M: RingMem>(
    nic: Netvsp<M>,
    receive: bool,
    log: (Seq<HvEvent>, Seq<HvEvent>),
    buf: OwnedBuf,
    next: Netvsp<M>,
    r: Result<()>,
    mid: Netvsp<M>,
    answer: Result<(u32, u32)>,
)
    requires
        buffer_handed(nic, receive, buf, (log.0, log.1), mid, answer),
        match answer {
            Err(e) => r == Err::<(), Error>(e) && next == mid,
            Ok(sections) => {
                &&& r == Ok::<(), Error>(())
                &&& next == mid.with_buffer(receive, buf, sections)
            },
        },
    ensures
        buffer_settled(nic, receive, log, Ok(buf), next, r),
{
}

impl<M: RingMem> Netvsp<M> {
    /// Open the synthetic NIC channel described by `offer`.
    ///
    /// * Establishes a GPADL over the 18-page ring region that the
    ///   platform allocated (`None` where it could not).
    /// * Opens the channel with `target_vp = u32::MAX` (polling).
    ///
    /// After this call succeeds, [`Self::negotiate_version`] must be
    /// called before any other message is sent.
    pub fn open<C: HypercallTrait, H: ConnectResultHandler>(
        ctx: &mut HvCtx<C>,
        state: &mut VmbusState<H>,
        offer: &OfferChannel,
        region: Option<RingRegion<M>>,
    ) -> (r: Result<Self>)
        requires
            region matches Some(g) ==> g.send_mem.state().wf() && g.recv_mem.state().wf()
                && g.base_gpa + RING_REGION_BYTES <= u64::MAX,
        ensures
            old(ctx).ran_to(*final(ctx)),
            nic_opened(
                (*old(state), *final(state)),
                (old(ctx).log(), final(ctx).log()),
                *offer,
                region,
                r,
            ),
            r matches Ok(nic) ==> nic.wf(),
    {
        let region = match region {
            Some(region) => region,
            None => return Err(
                Error::Parse { ty: None, reason: "netvsp ring allocation failed" },
            ),
        };
        let ghost g = region;
        let pfns = list_page_frames(region.base_gpa, RING_TOTAL_PAGES);
        let ring = establish_gpadl(
            ctx,
            state,
            offer.channel_id,
            RING_REGION_BYTES as u32,
            pfns.as_slice(),
        );
        let ghost mid = *state;
        let ghost mid_log = ctx.log();
        let r = match ring {
            Ok(handle) => {
                let opened = open_channel(
                    ctx,
                    state,
                    offer,
                    handle,
                    RING_DATA_PAGES as u32,
                    offer.connection_id,
                    (offer.channel_id.0 % 65536) as u16,
                );
                match opened {
                    Ok(channel) => Ok(
                        Netvsp {
                            link: Link {
                                channel,
                                send: SendRing::new(region.send_mem),
                                recv: RecvRing::new(region.recv_mem),
                            },
                            version: INVALID_PROTOCOL_VERSION,
                            next_transaction_id: 1,
                            recv_buf: None,
                            recv_section_size: 0,
                            recv_section_count: 0,
                            send_buf: None,
                            send_section_size: 0,
                            send_section_count: 0,
                        },
                    ),
                    Err(e) => Err(e),
                }
            },
            Err(e) => Err(e),
        };
        proof {
            lemma_nic_opened(
                (*old(state), *state),
                (old(ctx).log(), ctx.log()),
                *offer,
                Some(g),
                mid,
                mid_log,
                ring,
                r,
            );
        }
        r
    }

    /// A handle just opened over these memories: nothing negotiated and
    /// no buffers yet.
    pub open spec fn fresh(self, send_mem: M, recv_mem: M) -> bool {
        &&& self.wf()
        &&& self.link.send.made_over(send_mem)
        &&& self.link.recv.made_over(recv_mem)
        &&& self.version == INVALID_PROTOCOL_VERSION
        &&& self.next_transaction_id == 1
        &&& self.recv_buf is None
        &&& self.recv_section_size == 0
        &&& self.recv_section_count == 0
        &&& self.send_buf is None
        &&& self.send_section_size == 0
        &&& self.send_section_count == 0
    }

    /// `self` with an established buffer.
    pub open spec fn with_buffer(self, receive: bool, buf: OwnedBuf, sections: (u32, u32)) -> Self {
        if receive {
            Netvsp {
                recv_section_size: sections.0,
                recv_section_count: sections.1,
                recv_buf: Some(buf),
                ..self
            }
        } else {
            Netvsp {
                send_section_size: sections.0,
                send_section_count: sections.1,
                send_buf: Some(buf),
                ..self
            }
        }
    }

    /// Posting a caller's frame went like this.
    pub open spec fn posted_raw(
        self,
        frame: Seq<u8>,
        completion: bool,
        log: (Seq<HvEvent>, Seq<HvEvent>),
        next: Self,
        r: Result<()>,
    ) -> bool {
        if completion {
            exists|reply: Result<Seq<u8>>| #[trigger]
                self.asked(frame, DEFAULT_MAX_POLLS as nat, (log.0, log.1), next, reply) && r
                    == match reply {
                    Ok(_) => Ok(()),
                    Err(e) => Err(e),
                }
        } else {
            &&& self.same_settings(next)
            &&& next.next_transaction_id == self.next_transaction_id
            &&& self.link.posted(
                link::inband(frame, PacketFlags(0), 0),
                (log.0, log.1),
                next.link,
                r,
            )
        }
    }

    /// Post a caller-supplied NVSP message inband, as it is. With
    /// `completion`, wait for the paired `VM_PKT_COMP` and forget what it
    /// says; without, the send is fire-and-forget.
    pub fn send_nvsp_raw<C: HypercallTrait>(
        &mut self,
        ctx: &mut HvCtx<C>,
        frame: &[u8],
        completion: bool,
    ) -> (r: Result<()>)
        requires
            old(self).wf(),
        ensures
            old(ctx).ran_to(*final(ctx)),
            final(self).wf(),
            old(self).posted_raw(
                frame@,
                completion,
                (old(ctx).log(), final(ctx).log()),
                *final(self),
                r,
            ),
    {
        if !completion {
            return self.send_no_completion(ctx, frame);
        }
        let got = self.send_and_await(ctx, frame, DEFAULT_MAX_POLLS);
        let ghost reply: Result<Seq<u8>> = match &got {
            Ok(v) => Ok(v@),
            Err(e) => Err(*e),
        };
        proof {
            assert(old(self).asked(
                frame@,
                DEFAULT_MAX_POLLS as nat,
                (old(ctx).log(), ctx.log()),
                *self,
                reply,
            ));
        }
        match got {
            Ok(_) => Ok(()),
            Err(e) => Err(e),
        }
    }

    /// Send `NvspMsgInit` for `version` and await `InitComplete`.
    /// Returns `Ok(true)` if the host accepted, `Ok(false)` if the
    /// host returned a non-success status.
    fn try_init<C: HypercallTrait>(
        &mut self,
        ctx: &mut HvCtx<C>,
        version: Version,
    ) -> (r: Result<bool>)
        requires
            old(self).wf(),
        ensures
            old(ctx).ran_to(*final(ctx)),
            final(self).wf(),
            tried(*old(self), version, (old(ctx).log(), final(ctx).log()), *final(self), r),
    {
        let mut frame: [u8; 28] = [0;28];
        let body = NvspMsgInit {
            protocol_version: version.raw(),
            protocol_version2: version.raw(),
        };
        // V1 stands for the legacy frame length.
        match encode_message(msg_type::INIT, &body, Version::V1, &mut frame) {
            Ok(_) => {},
            Err(_) => return Err(Error::Parse { ty: None, reason: "encode INIT" }),
        }
        proof {
            assert(frame@ =~= init_frame(version));
        }
        let response = self.send_and_await(ctx, frame.as_slice(), DEFAULT_MAX_POLLS);
        let ghost reply: Result<Seq<u8>> = match &response {
            Ok(v) => Ok(v@),
            Err(e) => Err(*e),
        };
        proof {
            assert(old(self).asked(
                init_frame(version),
                DEFAULT_MAX_POLLS as nat,
                (old(ctx).log(), ctx.log()),
                *self,
                reply,
            ));
        }
        match response {
            Ok(bytes) => parse_init_complete(bytes.as_slice()),
            Err(e) => Err(e),
        }
    }

    /// Negotiate the NVSP protocol version by walking
    /// [`NEGOTIATION_LADDER`] high to low. Returns the accepted version.
    ///
    /// A single ladder attempt = post `INIT` with completion flag,
    /// wait for `INIT_COMPLETE`. On `status = SUCCESS`, this becomes
    /// the negotiated version; otherwise fall through to the next
    /// ladder entry.
    pub fn negotiate_version<C: HypercallTrait>(
        &mut self,
        ctx: &mut HvCtx<C>,
    ) -> (r: Result<Version>)
        requires
            old(self).wf(),
        ensures
            old(ctx).ran_to(*final(ctx)),
            final(self).wf(),
            ladder_walk(
                *old(self),
                NEGOTIATION_LADDER@,
                (old(ctx).log(), final(ctx).log()),
                *final(self),
                r,
            ),
    {
        let ladder = NEGOTIATION_LADDER;
        let ghost all = ladder@;
        let ghost log0 = ctx.log();
        let mut i: usize = 0;
        proof {
            assert(all.skip(0) =~= all);
        }
        while i < 6
            invariant
                old(ctx).ran_to(*ctx),
                i <= 6,
                all == NEGOTIATION_LADDER@,
                all.len() == 6,
                ladder@ == all,
                self.wf(),
                log0 == old(ctx).log(),
                forall|next: Netvsp<M>, end: Seq<HvEvent>, r: Result<Version>| #[trigger]
                    ladder_walk(*self, all.skip(i as int), (ctx.log(), end), next, r)
                        ==> ladder_walk(*old(self), all, (log0, end), next, r),
            decreases 6 - i,
        {
            let ghost before = *self;
            let ghost before_log = ctx.log();
            let ghost todo = all.skip(i as int);
            let version = ladder[i];
            let t = self.try_init(ctx, version);
            let ghost mid = *self;
            let ghost mid_log = ctx.log();
            proof {
                assert(todo[0] == version);
                assert(todo.drop_first() =~= all.skip(i + 1));
                assert(tried(before, todo[0], (before_log, mid_log), mid, t));
            }
            match t {
                Ok(true) => {
                    self.version = version.raw();
                    proof {
                        let r: Result<Version> = Ok(version);
                        assert(*self == (Netvsp { version: version.number(), ..mid }));
                        lemma_walk_ends(before, todo, (before_log, mid_log), mid, t, *self, r);
                    }
                    return Ok(version);
                },
                Ok(false) => {},
                Err(Error::Timeout) => {},
                Err(e) => {
                    proof {
                        let r: Result<Version> = Err(e);
                        lemma_walk_ends(before, todo, (before_log, mid_log), mid, t, *self, r);
                    }
                    return Err(e);
                },
            }
            i += 1;
            proof {
                assert forall|next: Netvsp<M>, end: Seq<HvEvent>, r: Result<Version>| #[trigger]
                ladder_walk(*self, all.skip(i as int), (ctx.log(), end), next, r)
                    implies ladder_walk(*old(self), all, (log0, end), next, r) by {
                    lemma_walk_on(
                        before,
                        todo,
                        (before_log, end),
                        mid,
                        mid_log,
                        t,
                        next,
                        r,
                    );
                }
            }
        }
        proof {
            let r: Result<Version> = Err(Error::VersionMismatch);
            assert(all.skip(6) =~= Seq::<Version>::empty());
            assert(ladder_walk(*self, all.skip(i as int), (ctx.log(), ctx.log()), *self, r));
        }
        Err(Error::VersionMismatch)
    }

    /// Send `Nvsp2SendNdisConfig` (V2+ only). Fire-and-forget, no
    /// completion expected.
    ///
    /// Ignored if the current negotiated version is V1 (which does not
    /// use NDIS config).
    pub fn send_ndis_config<C: HypercallTrait>(
        &mut self,
        ctx: &mut HvCtx<C>,
        mtu: u32,
    ) -> (r: Result<()>)
        requires
            old(self).wf(),
        ensures
            old(ctx).ran_to(*final(ctx)),
            final(self).wf(),
            config_sent(*old(self), mtu, (old(ctx).log(), final(ctx).log()), *final(self), r),
    {
        let version = match self.version_typed() {
            Ok(version) => version,
            Err(e) => return Err(e),
        };
        if version == Version::V1 {
            return Ok(());
        }
        let caps = NdisCapabilities::recommended(version);
        let mut buf: [u8; 40] = [0;40];
        let body = Nvsp2MsgSendNdisConfig { mtu, reserved: 0, capabilities: caps.0 };
        let n = match encode_message(msg_type::V2_SEND_NDIS_CONFIG, &body, version, &mut buf) {
            Ok(n) => n,
            Err(_) => return Err(Error::Parse { ty: None, reason: "encode NDIS_CONFIG" }),
        };
        let sent = &buf.as_slice()[0..n];
        proof {
            body.lemma_wire_len();
            law_parse_encoded(msg_type::V2_SEND_NDIS_CONFIG, body.wire(), n as int);
            assert(sent@ =~= frame(msg_type::V2_SEND_NDIS_CONFIG, body.wire(), n as int));
        }
        self.send_no_completion(ctx, sent)
    }

    /// Send `Nvsp1SendNdisVersion`. Fire-and-forget, no completion.
    ///
    /// `major = 6`, `minor = 30` for V5+ or `minor = 1` otherwise.
    pub fn send_ndis_version<C: HypercallTrait>(&mut self, ctx: &mut HvCtx<C>) -> (r: Result<()>)
        requires
            old(self).wf(),
        ensures
            old(ctx).ran_to(*final(ctx)),
            final(self).wf(),
            ndis_version_sent(*old(self), (old(ctx).log(), final(ctx).log()), *final(self), r),
    {
        let version = match self.version_typed() {
            Ok(version) => version,
            Err(e) => return Err(e),
        };
        let ndis_minor: u32 = if version.raw() <= Version::V4.raw() {
            1
        } else {
            0x1e
        };
        let mut buf: [u8; 40] = [0;40];
        let body = Nvsp1MsgSendNdisVersion {
            ndis_major_version: 6,
            ndis_minor_version: ndis_minor,
        };
        let n = match encode_message(msg_type::V1_SEND_NDIS_VERSION, &body, version, &mut buf) {
            Ok(n) => n,
            Err(_) => return Err(Error::Parse { ty: None, reason: "encode NDIS_VERSION" }),
        };
        let sent = &buf.as_slice()[0..n];
        proof {
            body.lemma_wire_len();
            law_parse_encoded(msg_type::V1_SEND_NDIS_VERSION, body.wire(), n as int);
            assert(sent@ =~= frame(msg_type::V1_SEND_NDIS_VERSION, body.wire(), n as int));
        }
        self.send_no_completion(ctx, sent)
    }

    /// Hand `buf` over to the host and await the reply.
    fn hand_buffer<C: HypercallTrait>(
        &mut self,
        ctx: &mut HvCtx<C>,
        message_type: u32,
        buf: OwnedBuf,
        id: u16,
    ) -> (r: Result<Vec<u8>>)
        requires
            old(self).wf(),
        ensures
            old(ctx).ran_to(*final(ctx)),
            final(self).wf(),
            match version_of(old(self).version) {
                Err(e) => {
                    &&& *final(self) == *old(self)
                    &&& final(ctx).log() == old(ctx).log()
                    &&& r matches Err(x)
                    &&& x == e
                },
                Ok(version) => old(self).asked(
                    buffer_frame(message_type, buf.gpadl, id, version),
                    DEFAULT_MAX_POLLS as nat,
                    (old(ctx).log(), final(ctx).log()),
                    *final(self),
                    match r {
                        Ok(v) => Ok(v@),
                        Err(e) => Err(e),
                    },
                ),
            },
    {
        let version = match self.version_typed() {
            Ok(version) => version,
            Err(e) => return Err(e),
        };
        let mut out: [u8; 40] = [0;40];
        let body = Nvsp1MsgSendBuffer { gpadl_handle: buf.gpadl.gpadl_id.0, id, pad: 0 };
        let n = match encode_message(message_type, &body, version, &mut out) {
            Ok(n) => n,
            Err(_) => return Err(Error::Parse { ty: None, reason: "encode buffer message" }),
        };
        let sent = &out.as_slice()[0..n];
        proof {
            body.lemma_wire_len();
            law_parse_encoded(message_type, body.wire(), n as int);
            assert(sent@ =~= buffer_frame(message_type, buf.gpadl, id, version));
        }
        self.send_and_await(ctx, sent, DEFAULT_MAX_POLLS)
    }

    /// Establish the receive buffer (host to guest data path).
    ///
    /// Registers a GPADL for the `size` bytes (must be page-multiple)
    /// that the platform allocated at `base_gpa` (`None` where it could
    /// not), sends `V1_SEND_RECV_BUF`, and waits for
    /// `V1_SEND_RECV_BUF_COMPLETE`, which is validated by
    /// [`parse_recv_buf_complete`].
    pub fn establish_recv_buffer<C: HypercallTrait, H: ConnectResultHandler>(
        &mut self,
        ctx: &mut HvCtx<C>,
        state: &mut VmbusState<H>,
        size: usize,
        base_gpa: Option<u64>,
    ) -> (r: Result<()>)
        requires
            old(self).wf(),
            buffer_fits(size, base_gpa),
        ensures
            old(ctx).ran_to(*final(ctx)),
            final(self).wf(),
            buffer_established(
                *old(self),
                true,
                (*old(state), *final(state)),
                (old(ctx).log(), final(ctx).log()),
                size,
                base_gpa,
                *final(self),
                r,
            ),
    {
        if self.recv_buf.is_some() {
            return Err(Error::Parse { ty: None, reason: "recv buffer already established" });
        }
        let made = allocate_gpadl_buffer(
            ctx,
            state,
            self.link.channel.channel_id,
            size,
            base_gpa,
        );
        let ghost mid_log = ctx.log();
        let buf = match made {
            Ok(buf) => buf,
            Err(e) => {
                proof {
                    let r: Result<()> = Err(e);
                    lemma_buffer_established(
                        *old(self),
                        true,
                        (*old(state), *state),
                        (old(ctx).log(), ctx.log()),
                        size,
                        base_gpa,
                        *self,
                        r,
                        mid_log,
                        made,
                    );
                }
                return Err(e);
            },
        };
        let reply = self.hand_buffer(
            ctx,
            msg_type::V1_SEND_RECV_BUF,
            buf,
            NETVSC_RECEIVE_BUFFER_ID,
        );
        let ghost nic = *self;
        let ghost heard: Result<Seq<u8>> = match &reply {
            Ok(v) => Ok(v@),
            Err(e) => Err(*e),
        };
        let answer = match reply {
            Ok(bytes) => parse_recv_buf_complete(bytes.as_slice(), size),
            Err(e) => Err(e),
        };
        proof {
            assert(answer == sections_outcome(true, buf.len, heard));
            if let Ok(version) = version_of(old(self).version) {
                assert(old(self).asked(
                    handover_frame(true, buf.gpadl, version),
                    DEFAULT_MAX_POLLS as nat,
                    (mid_log, ctx.log()),
                    nic,
                    heard,
                ));
            }
            assert(buffer_handed(
                *old(self),
                true,
                buf,
                (mid_log, ctx.log()),
                nic,
                answer,
            ));
        }
        let r = match answer {
            Ok((section, count)) => {
                self.recv_section_size = section;
                self.recv_section_count = count;
                self.recv_buf = Some(buf);
                Ok(())
            },
            Err(e) => Err(e),
        };
        proof {
            lemma_buffer_settled(*old(self), true, (mid_log, ctx.log()), buf, *self, r, nic, answer);
            lemma_buffer_established(
                *old(self),
                true,
                (*old(state), *state),
                (old(ctx).log(), ctx.log()),
                size,
                base_gpa,
                *self,
                r,
                mid_log,
                made,
            );
        }
        r
    }

    /// Establish the send buffer (guest to host bulk data path).
    ///
    /// Same shape as [`Self::establish_recv_buffer`] but for the
    /// `SEND_SEND_BUF` variant; the response is validated by
    /// [`parse_send_buf_complete`].
    pub fn establish_send_buffer<C: HypercallTrait, H: ConnectResultHandler>(
        &mut self,
        ctx: &mut HvCtx<C>,
        state: &mut VmbusState<H>,
        size: usize,
        base_gpa: Option<u64>,
    ) -> (r: Result<()>)
        requires
            old(self).wf(),
            buffer_fits(size, base_gpa),
        ensures
            old(ctx).ran_to(*final(ctx)),
            final(self).wf(),
            buffer_established(
                *old(self),
                false,
                (*old(state), *final(state)),
                (old(ctx).log(), final(ctx).log()),
                size,
                base_gpa,
                *final(self),
                r,
            ),
    {
        if self.send_buf.is_some() {
            return Err(Error::Parse { ty: None, reason: "send buffer already established" });
        }
        let made = allocate_gpadl_buffer(
            ctx,
            state,
            self.link.channel.channel_id,
            size,
            base_gpa,
        );
        let ghost mid_log = ctx.log();
        let buf = match made {
            Ok(buf) => buf,
            Err(e) => {
                proof {
                    let r: Result<()> = Err(e);
                    lemma_buffer_established(
                        *old(self),
                        false,
                        (*old(state), *state),
                        (old(ctx).log(), ctx.log()),
                        size,
                        base_gpa,
                        *self,
                        r,
                        mid_log,
                        made,
                    );
                }
                return Err(e);
            },
        };
        let reply = self.hand_buffer(ctx, msg_type::V1_SEND_SEND_BUF, buf, NETVSC_SEND_BUFFER_ID);
        let ghost nic = *self;
        let ghost heard: Result<Seq<u8>> = match &reply {
            Ok(v) => Ok(v@),
            Err(e) => Err(*e),
        };
        let low = (size as u64 % 0x1_0000_0000) as u32;
        let answer = match reply {
            Ok(bytes) => parse_send_buf_complete(bytes.as_slice(), low),
            Err(e) => Err(e),
        };
        proof {
            assert(answer == sections_outcome(false, buf.len, heard));
            if let Ok(version) = version_of(old(self).version) {
                assert(old(self).asked(
                    handover_frame(false, buf.gpadl, version),
                    DEFAULT_MAX_POLLS as nat,
                    (mid_log, ctx.log()),
                    nic,
                    heard,
                ));
            }
            assert(buffer_handed(
                *old(self),
                false,
                buf,
                (mid_log, ctx.log()),
                nic,
                answer,
            ));
        }
        let r = match answer {
            Ok((section, count)) => {
                self.send_section_size = section;
                self.send_section_count = count;
                self.send_buf = Some(buf);
                Ok(())
            },
            Err(e) => Err(e),
        };
        proof {
            lemma_buffer_settled(*old(self), false, (mid_log, ctx.log()), buf, *self, r, nic, answer);
            lemma_buffer_established(
                *old(self),
                false,
                (*old(state), *state),
                (old(ctx).log(), ctx.log()),
                size,
                base_gpa,
                *self,
                r,
                mid_log,
                made,
            );
        }
        r
    }
}

/// Law: once established, the receive buffer holds all of its sections.
pub proof fn law_recv_sections_fit(reply: Seq<u8>, size: int, section: u32, count: u32)
    requires
        recv_buf_answer(reply, size) == Ok::<(u32, u32), Error>((section, count)),
    ensures
        section >= NETVSC_MTU_MIN,
        section * count <= size,
{
}

/// Law: once established, the send buffer holds all of its sections, and
/// at least one.
pub proof fn law_send_sections_fit(reply: Seq<u8>, size: u32, section: u32, count: u32)
    requires
        send_buf_answer(reply, size as int) == Ok::<(u32, u32), Error>((section, count)),
    ensures
        section >= NETVSC_MTU_MIN,
        count >= 1,
        section * count <= size,
{
    let s = size as int;
    let d = section as int;
    vstd::arithmetic::div_mod::lemma_fundamental_div_mod(s, d);
    assert(s / d <= s) by (nonlinear_arith)
        requires
            s >= 0,
            d > 0,
    ;
    assert(s / d >= 1) by (nonlinear_arith)
        requires
            s >= d,
            d > 0,
    ;
}

} // verus!
