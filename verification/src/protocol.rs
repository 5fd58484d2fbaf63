//! VMBus protocol wire types.
//!
//! Layouts match the Windows headers `VmbusChannelMessages.h` and
//! `VmbusVersions.h`: every structure is little-endian, and its fields
//! follow each other without gaps.
use crate::wire;
use crate::wire::Wire;
use core::cmp::Ordering;
use vstd::prelude::*;
use vstd::std_specs::cmp::PartialOrdIs;
use vstd::std_specs::cmp::PartialOrdSpecImpl;
use vstd::string::StringExecFns;

verus! {

/// Windows-format GUID, matching the wire layout used by every VMBus
/// message.
#[derive(Copy, Clone, Debug, PartialEq, Eq, Hash)]
pub struct Guid {
    pub data1: u32,
    pub data2: u16,
    pub data3: u16,
    pub data4: [u8; 8],
}

impl Wire for Guid {
    open spec fn wire(&self) -> Seq<u8> {
        self.data1.wire() + self.data2.wire() + self.data3.wire() + self.data4.wire()
    }

    open spec fn wire_len() -> nat {
        16
    }

    proof fn lemma_wire_len(&self) {
        self.data1.lemma_wire_len();
        self.data2.lemma_wire_len();
        self.data3.lemma_wire_len();
        self.data4.lemma_wire_len();
    }

    proof fn lemma_injective(&self, other: &Self) {
        self.data1.lemma_wire_len();
        other.data1.lemma_wire_len();
        self.data2.lemma_wire_len();
        other.data2.lemma_wire_len();
        self.data3.lemma_wire_len();
        other.data3.lemma_wire_len();
        self.data4.lemma_wire_len();
        other.data4.lemma_wire_len();
        let b = self.wire();
        assert(self.data1.wire() =~= b.subrange(0, 4));
        assert(other.data1.wire() =~= b.subrange(0, 4));
        self.data1.lemma_injective(&other.data1);
        assert(self.data2.wire() =~= b.subrange(4, 6));
        assert(other.data2.wire() =~= b.subrange(4, 6));
        self.data2.lemma_injective(&other.data2);
        assert(self.data3.wire() =~= b.subrange(6, 8));
        assert(other.data3.wire() =~= b.subrange(6, 8));
        self.data3.lemma_injective(&other.data3);
        assert(self.data4.wire() =~= b.subrange(8, 16));
        assert(other.data4.wire() =~= b.subrange(8, 16));
        self.data4.lemma_injective(&other.data4);
    }

    fn wire_size() -> (n: usize) {
        16
    }

    fn write_to(&self, out: &mut Vec<u8>) {
        self.data1.write_to(out);
        self.data2.write_to(out);
        self.data3.write_to(out);
        self.data4.write_to(out);
        proof {
            assert(out@ =~= old(out)@ + self.wire());
        }
    }

    fn read_at(bytes: &[u8], off: usize) -> (r: Self) {
        proof {
            wire::lemma_slice_len(bytes);
        }
        let r = Guid {
            data1: u32::read_at(bytes, off),
            data2: u16::read_at(bytes, off + 4),
            data3: u16::read_at(bytes, off + 6),
            data4: <[u8; 8]>::read_at(bytes, off + 8),
        };
        proof {
            r.lemma_wire_len();
            r.data1.lemma_wire_len();
            r.data2.lemma_wire_len();
            r.data3.lemma_wire_len();
            r.data4.lemma_wire_len();
            assert(r.wire() =~= bytes@.subrange(off as int, off + 16));
        }
        r
    }
}

impl Guid {
    /// The all-zero GUID.
    pub open spec fn zero() -> Guid {
        wire::decoded(wire::zeros(16))
    }

    /// Whether two GUIDs are the same.
    pub fn same(&self, other: &Guid) -> (r: bool)
        ensures
            r == (*self == *other),
    {
        let a = self.data4;
        let b = other.data4;
        let mut i: usize = 0;
        let mut eq: bool = true;
        while i < 8
            invariant
                i <= 8,
                eq == (forall|j: int| 0 <= j < i ==> a@[j] == b@[j]),
            decreases 8 - i,
        {
            if a[i] != b[i] {
                eq = false;
            }
            i += 1;
        }
        proof {
            if eq {
                assert(a =~= b);
            }
        }
        eq && self.data1 == other.data1 && self.data2 == other.data2 && self.data3 == other.data3
    }
}

impl Default for Guid {
    fn default() -> (r: Self)
        ensures
            r.wire() == wire::zeros(16),
    {
        Guid::new_zeroed()
    }
}

/// Size of the vmbus [`MessageHeader`] in bytes.
pub const HEADER_SIZE: usize = 8;

/// Payload size of a Hyper-V message.
pub const HV_MESSAGE_PAYLOAD_SIZE: usize = 240;

/// Size of a Hyper-V message slot, header and payload.
pub const HV_MESSAGE_SIZE: usize = 256;

/// Size of a Hyper-V page in bytes.
pub const HV_PAGE_SIZE: u64 = 4096;

/// Maximum size of a vmbus message, header included.
pub const MAX_MESSAGE_SIZE: usize = 240;

/// Hyper-V message type used for VMBus messages.
pub const HV_MESSAGE_TYPE_CHANNEL: u32 = 1;

/// Legacy connection ID used before protocol version 5.0.
pub const VMBUS_CONNECTION_ID_LEGACY: u32 = 1;

/// Connection ID used for protocol version 5.0 and above (overridden by
/// the value returned in `VersionResponse::selected_version_or_connection_id`).
pub const VMBUS_CONNECTION_ID_MODERN: u32 = 4;

/// The operation succeeded.
pub const STATUS_SUCCESS: i32 = 0;

/// The operation failed (`0x8000ffff`).
pub const STATUS_UNSUCCESSFUL: i32 = -2147418113;

/// The peer refused the connection (`0xc0000236`).
pub const STATUS_CONNECTION_REFUSED: i32 = -1073741258;

// ---------------------------------------------------------------------------
// Message type + header
// ---------------------------------------------------------------------------
/// The type word of a vmbus message. Any value can occur; the ones this
/// guest knows are the associated constants.
#[derive(Copy, Clone, Debug, PartialEq, Eq, Structural)]
pub struct MessageType(pub u32);

impl Wire for MessageType {
    open spec fn wire(&self) -> Seq<u8> {
        self.0.wire()
    }

    open spec fn wire_len() -> nat {
        4
    }

    proof fn lemma_wire_len(&self) {
        self.0.lemma_wire_len();
    }

    proof fn lemma_injective(&self, other: &Self) {
        self.0.lemma_injective(&other.0);
    }

    fn wire_size() -> (n: usize) {
        4
    }

    fn write_to(&self, out: &mut Vec<u8>) {
        self.0.write_to(out);
    }

    fn read_at(bytes: &[u8], off: usize) -> (r: Self) {
        let r = MessageType(u32::read_at(bytes, off));
        r
    }
}

impl MessageType {
    pub const INVALID: u32 = 0;

    pub const OFFER_CHANNEL: u32 = 1;

    pub const RESCIND_CHANNEL_OFFER: u32 = 2;

    pub const REQUEST_OFFERS: u32 = 3;

    pub const ALL_OFFERS_DELIVERED: u32 = 4;

    pub const OPEN_CHANNEL: u32 = 5;

    pub const OPEN_CHANNEL_RESULT: u32 = 6;

    pub const CLOSE_CHANNEL: u32 = 7;

    pub const GPADL_HEADER: u32 = 8;

    pub const GPADL_BODY: u32 = 9;

    pub const GPADL_CREATED: u32 = 10;

    pub const GPADL_TEARDOWN: u32 = 11;

    pub const GPADL_TORNDOWN: u32 = 12;

    pub const REL_ID_RELEASED: u32 = 13;

    pub const INITIATE_CONTACT: u32 = 14;

    pub const VERSION_RESPONSE: u32 = 15;

    pub const UNLOAD: u32 = 16;

    pub const UNLOAD_COMPLETE: u32 = 17;

    pub const OPEN_RESERVED_CHANNEL: u32 = 18;

    pub const CLOSE_RESERVED_CHANNEL: u32 = 19;

    pub const CLOSE_RESERVED_RESPONSE: u32 = 20;

    pub const TL_CONNECT_REQUEST: u32 = 21;

    pub const MODIFY_CHANNEL: u32 = 22;

    pub const TL_CONNECT_RESULT: u32 = 23;

    pub const MODIFY_CHANNEL_RESPONSE: u32 = 24;

    pub const MODIFY_CONNECTION: u32 = 25;

    pub const MODIFY_CONNECTION_RESPONSE: u32 = 26;

    pub const PAUSE: u32 = 27;

    pub const PAUSE_RESPONSE: u32 = 28;

    pub const RESUME: u32 = 29;
}

/// Leads every vmbus message.
#[derive(Copy, Clone, Debug, PartialEq, Eq)]
pub struct MessageHeader {
    pub message_type: MessageType,
    pub padding: u32,
}

impl Wire for MessageHeader {
    open spec fn wire(&self) -> Seq<u8> {
        self.message_type.wire() + self.padding.wire()
    }

    open spec fn wire_len() -> nat {
        8
    }

    proof fn lemma_wire_len(&self) {
        self.message_type.lemma_wire_len();
        self.padding.lemma_wire_len();
    }

    proof fn lemma_injective(&self, other: &Self) {
        self.message_type.lemma_wire_len();
        other.message_type.lemma_wire_len();
        self.padding.lemma_wire_len();
        other.padding.lemma_wire_len();
        let b = self.wire();
        assert(self.message_type.wire() =~= b.subrange(0, 4));
        assert(other.message_type.wire() =~= b.subrange(0, 4));
        self.message_type.lemma_injective(&other.message_type);
        assert(self.padding.wire() =~= b.subrange(4, 8));
        assert(other.padding.wire() =~= b.subrange(4, 8));
        self.padding.lemma_injective(&other.padding);
    }

    fn wire_size() -> (n: usize) {
        8
    }

    fn write_to(&self, out: &mut Vec<u8>) {
        self.message_type.write_to(out);
        self.padding.write_to(out);
        proof {
            assert(out@ =~= old(out)@ + self.wire());
        }
    }

    fn read_at(bytes: &[u8], off: usize) -> (r: Self) {
        proof {
            wire::lemma_slice_len(bytes);
        }
        let r = MessageHeader {
            message_type: MessageType::read_at(bytes, off),
            padding: u32::read_at(bytes, off + 4),
        };
        proof {
            r.lemma_wire_len();
            r.message_type.lemma_wire_len();
            r.padding.lemma_wire_len();
            assert(r.wire() =~= bytes@.subrange(off as int, off + 8));
        }
        r
    }
}

impl MessageHeader {
    /// A header for a message of type `message_type`.
    pub fn new(message_type: MessageType) -> (r: Self)
        ensures
            r.message_type == message_type,
            r.padding == 0,
    {
        MessageHeader { message_type, padding: 0 }
    }

    /// The message type.
    pub fn message_type(&self) -> (r: MessageType)
        ensures
            r == self.message_type,
    {
        self.message_type
    }
}

/// A wire message: a type word and a body of fixed size.
pub trait VmbusMessage: Wire {
    /// The value of the header's type word.
    const MESSAGE_TYPE: u32;

    /// Size of the whole message, header included.
    const MESSAGE_SIZE: usize;

    /// [`Self::MESSAGE_TYPE`], for use in contracts.
    spec fn type_word() -> u32;

    /// The message is the header followed by the body.
    proof fn lemma_message()
        ensures
            Self::MESSAGE_TYPE == Self::type_word(),
            Self::MESSAGE_SIZE == HEADER_SIZE + Self::wire_len(),
    ;
}

/// The bytes of `msg` behind its header.
pub open spec fn message_bytes<M: VmbusMessage>(msg: M) -> Seq<u8> {
    header_bytes(M::type_word()) + msg.wire()
}

/// The bytes of the header of a message of type `ty`.
pub open spec fn header_bytes(ty: u32) -> Seq<u8> {
    (MessageHeader { message_type: MessageType(ty), padding: 0 }).wire()
}

// ---------------------------------------------------------------------------
// Bit fields
// ---------------------------------------------------------------------------
/// `x` with the bits of `mask` set or cleared.
pub open spec fn with_bits32(x: u32, mask: u32, v: bool) -> u32 {
    if v {
        x | mask
    } else {
        x & !mask
    }
}

/// `x` with the bits of `mask` set or cleared.
pub open spec fn with_bits16(x: u16, mask: u16, v: bool) -> u16 {
    if v {
        x | mask
    } else {
        x & !mask
    }
}

/// Law: a flag reads back as it was set, and a flag with other bits is
/// left alone.
pub proof fn law_with_bits32(x: u32, mask: u32, other: u32, v: bool)
    requires
        mask != 0,
    ensures
        (with_bits32(x, mask, v) & mask != 0) == v,
        mask & other == 0 ==> with_bits32(x, mask, v) & other == x & other,
{
    assert((x | mask) & mask == mask) by (bit_vector);
    assert((x & !mask) & mask == 0) by (bit_vector);
    assert(mask & other == 0 ==> (x | mask) & other == x & other) by (bit_vector);
    assert(mask & other == 0 ==> (x & !mask) & other == x & other) by (bit_vector);
}

/// Law: a flag reads back as it was set, and a flag with other bits is
/// left alone.
pub proof fn law_with_bits16(x: u16, mask: u16, other: u16, v: bool)
    requires
        mask != 0,
    ensures
        (with_bits16(x, mask, v) & mask != 0) == v,
        mask & other == 0 ==> with_bits16(x, mask, v) & other == x & other,
{
    assert((x | mask) & mask == mask) by (bit_vector);
    assert((x & !mask) & mask == 0) by (bit_vector);
    assert(mask & other == 0 ==> (x | mask) & other == x & other) by (bit_vector);
    assert(mask & other == 0 ==> (x & !mask) & other == x & other) by (bit_vector);
}

// ---------------------------------------------------------------------------
// Feature flags + protocol version
// ---------------------------------------------------------------------------
/// Features of a connection, as offered by one side or agreed by both.
#[derive(Copy, Clone, Debug, PartialEq, Eq, Structural)]
pub struct FeatureFlags(pub u32);

impl Wire for FeatureFlags {
    open spec fn wire(&self) -> Seq<u8> {
        self.0.wire()
    }

    open spec fn wire_len() -> nat {
        4
    }

    proof fn lemma_wire_len(&self) {
        self.0.lemma_wire_len();
    }

    proof fn lemma_injective(&self, other: &Self) {
        self.0.lemma_injective(&other.0);
    }

    fn wire_size() -> (n: usize) {
        4
    }

    fn write_to(&self, out: &mut Vec<u8>) {
        self.0.write_to(out);
    }

    fn read_at(bytes: &[u8], off: usize) -> (r: Self) {
        let r = FeatureFlags(u32::read_at(bytes, off));
        r
    }
}

impl FeatureFlags {
    /// No flag set.
    pub fn new() -> (r: Self)
        ensures
            r.0 == 0,
    {
        FeatureFlags(0)
    }

    /// The flags in `bits`.
    pub fn from_bits(bits: u32) -> (r: Self)
        ensures
            r.0 == bits,
    {
        FeatureFlags(bits)
    }

    /// The flags as an integer.
    pub fn into_bits(self) -> (r: u32)
        ensures
            r == self.0,
    {
        self.0
    }

    /// Guest may specify event flag & connection ID in `OpenChannel2`.
    pub fn guest_specified_signal_parameters(&self) -> (r: bool)
        ensures
            r == (self.0 & 0x1 != 0),
    {
        self.0 & 0x1 != 0
    }

    /// Set or clear [`Self::guest_specified_signal_parameters`].
    pub fn with_guest_specified_signal_parameters(self, v: bool) -> (r: Self)
        ensures
            r.0 == with_bits32(self.0, 0x1, v),
    {
        if v {
            FeatureFlags(self.0 | 0x1)
        } else {
            FeatureFlags(self.0 & !0x1u32)
        }
    }

    /// `REDIRECT_INTERRUPT` flag supported in `OpenChannel2`.
    pub fn channel_interrupt_redirection(&self) -> (r: bool)
        ensures
            r == (self.0 & 0x2 != 0),
    {
        self.0 & 0x2 != 0
    }

    /// Set or clear [`Self::channel_interrupt_redirection`].
    pub fn with_channel_interrupt_redirection(self, v: bool) -> (r: Self)
        ensures
            r.0 == with_bits32(self.0, 0x2, v),
    {
        if v {
            FeatureFlags(self.0 | 0x2)
        } else {
            FeatureFlags(self.0 & !0x2u32)
        }
    }

    /// `MODIFY_CONNECTION` / `MODIFY_CONNECTION_RESPONSE` supported.
    pub fn modify_connection(&self) -> (r: bool)
        ensures
            r == (self.0 & 0x4 != 0),
    {
        self.0 & 0x4 != 0
    }

    /// Set or clear [`Self::modify_connection`].
    pub fn with_modify_connection(self, v: bool) -> (r: Self)
        ensures
            r.0 == with_bits32(self.0, 0x4, v),
    {
        if v {
            FeatureFlags(self.0 | 0x4)
        } else {
            FeatureFlags(self.0 & !0x4u32)
        }
    }

    /// Guest may identify itself with a GUID in `InitiateContact2`.
    pub fn client_id(&self) -> (r: bool)
        ensures
            r == (self.0 & 0x8 != 0),
    {
        self.0 & 0x8 != 0
    }

    /// Set or clear [`Self::client_id`].
    pub fn with_client_id(self, v: bool) -> (r: Self)
        ensures
            r.0 == with_bits32(self.0, 0x8, v),
    {
        if v {
            FeatureFlags(self.0 | 0x8)
        } else {
            FeatureFlags(self.0 & !0x8u32)
        }
    }

    /// Encrypted ring buffers (confidential VMBus).
    pub fn confidential_channels(&self) -> (r: bool)
        ensures
            r == (self.0 & 0x10 != 0),
    {
        self.0 & 0x10 != 0
    }

    /// Set or clear [`Self::confidential_channels`].
    pub fn with_confidential_channels(self, v: bool) -> (r: Self)
        ensures
            r.0 == with_bits32(self.0, 0x10, v),
    {
        if v {
            FeatureFlags(self.0 | 0x10)
        } else {
            FeatureFlags(self.0 & !0x10u32)
        }
    }

    /// Pause/resume supported.
    pub fn pause_resume(&self) -> (r: bool)
        ensures
            r == (self.0 & 0x20 != 0),
    {
        self.0 & 0x20 != 0
    }

    /// Set or clear [`Self::pause_resume`].
    pub fn with_pause_resume(self, v: bool) -> (r: Self)
        ensures
            r.0 == with_bits32(self.0, 0x20, v),
    {
        if v {
            FeatureFlags(self.0 | 0x20)
        } else {
            FeatureFlags(self.0 & !0x20u32)
        }
    }

    /// Server-provided monitor pages.
    pub fn server_specified_monitor_pages(&self) -> (r: bool)
        ensures
            r == (self.0 & 0x40 != 0),
    {
        self.0 & 0x40 != 0
    }

    /// Set or clear [`Self::server_specified_monitor_pages`].
    pub fn with_server_specified_monitor_pages(self, v: bool) -> (r: Self)
        ensures
            r.0 == with_bits32(self.0, 0x40, v),
    {
        if v {
            FeatureFlags(self.0 | 0x40)
        } else {
            FeatureFlags(self.0 & !0x40u32)
        }
    }
}

impl FeatureFlags {
    /// Whether every flag of `other` is set.
    pub fn contains(&self, other: FeatureFlags) -> (r: bool)
        ensures
            r == (self.0 & other.0 == other.0),
    {
        self.into_bits() & other.into_bits() == other.into_bits()
    }

    /// Flags this guest advertises by default (Copper + CLIENT_ID).
    pub fn supported() -> (r: Self)
        ensures
            r.0 == 0xf,
    {
        let r = Self::new().with_guest_specified_signal_parameters(
            true,
        ).with_channel_interrupt_redirection(true).with_modify_connection(true).with_client_id(
            true,
        );
        proof {
            assert(((0u32 | 0x1) | 0x2) | 0x4 | 0x8 == 0xf) by (bit_vector);
        }
        r
    }
}

/// The wire form of version `major.minor`.
pub fn make_version(major: u16, minor: u16) -> (r: u32)
    ensures
        r == major * 65536 + minor,
{
    (major as u32) * 65536 + (minor as u32)
}

/// The set of vmbus protocol versions we recognise. The variants are
/// ordered oldest to newest so `Ord` gives a useful comparison.
#[derive(Copy, Clone, Debug, PartialEq, Eq, Ord, Hash, Structural)]
pub enum Version {
    V1,
    Win7,
    Win8,
    Win8_1,
    Win10,
    Win10Rs3_0,
    Win10Rs3_1,
    Win10Rs4,
    Win10Rs5,
    Iron,
    Copper,
}

impl Version {
    /// Version-negotiation ladder in the order we attempt it.
    pub const NEGOTIATION_LADDER: [Version; 8] = [
        Version::Copper,
        Version::Iron,
        Version::Win10Rs5,
        Version::Win10Rs4,
        Version::Win10Rs3_1,
        Version::Win10,
        Version::Win8_1,
        Version::Win8,
    ];

    /// The version word: major number in the upper half, minor in the
    /// lower.
    pub open spec fn number(self) -> u32 {
        match self {
            Version::V1 => 0x0000_000d,
            Version::Win7 => 0x0001_0001,
            Version::Win8 => 0x0002_0004,
            Version::Win8_1 => 0x0003_0000,
            Version::Win10 => 0x0004_0000,
            Version::Win10Rs3_0 => 0x0004_0001,
            Version::Win10Rs3_1 => 0x0005_0000,
            Version::Win10Rs4 => 0x0005_0001,
            Version::Win10Rs5 => 0x0005_0002,
            Version::Iron => 0x0005_0003,
            Version::Copper => 0x0006_0000,
        }
    }

    /// The version word as it goes on the wire.
    pub fn raw(self) -> (r: u32)
        ensures
            r == self.number(),
    {
        match self {
            Version::V1 => make_version(0, 13),
            Version::Win7 => make_version(1, 1),
            Version::Win8 => make_version(2, 4),
            Version::Win8_1 => make_version(3, 0),
            Version::Win10 => make_version(4, 0),
            Version::Win10Rs3_0 => make_version(4, 1),
            Version::Win10Rs3_1 => make_version(5, 0),
            Version::Win10Rs4 => make_version(5, 1),
            Version::Win10Rs5 => make_version(5, 2),
            Version::Iron => make_version(5, 3),
            Version::Copper => make_version(6, 0),
        }
    }

    /// Whether `self` is `other` or newer.
    pub fn at_least(self, other: Version) -> (r: bool)
        ensures
            r == (self.number() >= other.number()),
    {
        self >= other
    }

    /// Law: newer versions compare greater: versions stand to each other as
    /// their numbers do, and no two share a number.
    pub proof fn law_ordered(a: Version, b: Version)
        ensures
            a.is_lt(&b) <==> a.number() < b.number(),
            a.is_le(&b) <==> a.number() <= b.number(),
            a.is_gt(&b) <==> a.number() > b.number(),
            a.is_ge(&b) <==> a.number() >= b.number(),
            a == b <==> a.number() == b.number(),
    {
    }

    /// Law: the ladder runs from the newest version to the oldest supported
    /// one, strictly downwards.
    pub proof fn law_ladder_descends(i: int, j: int)
        requires
            0 <= i < j < Self::NEGOTIATION_LADDER@.len(),
        ensures
            Self::NEGOTIATION_LADDER@[i].number() > Self::NEGOTIATION_LADDER@[j].number(),
            Self::NEGOTIATION_LADDER@[i].is_gt(&Self::NEGOTIATION_LADDER@[j]),
            Self::NEGOTIATION_LADDER@[0] == Version::Copper,
            Self::NEGOTIATION_LADDER@.last() == Version::Win8,
    {
    }
}

impl PartialOrd for Version {
    fn partial_cmp(&self, other: &Self) -> (r: Option<Ordering>) {
        let a = self.raw();
        let b = other.raw();
        if a < b {
            Some(Ordering::Less)
        } else if a > b {
            Some(Ordering::Greater)
        } else {
            Some(Ordering::Equal)
        }
    }
}

/// Versions are ordered by their numbers.
impl PartialOrdSpecImpl for Version {
    open spec fn obeys_partial_cmp_spec() -> bool {
        true
    }

    open spec fn partial_cmp_spec(&self, other: &Self) -> Option<Ordering> {
        if self.number() < other.number() {
            Some(Ordering::Less)
        } else if self.number() > other.number() {
            Some(Ordering::Greater)
        } else {
            Some(Ordering::Equal)
        }
    }
}

// ---------------------------------------------------------------------------
// ID newtypes
// ---------------------------------------------------------------------------
/// Identifies a channel on a connection.
#[derive(Copy, Clone, Debug, Default, PartialEq, Eq, PartialOrd, Ord, Hash, Structural)]
pub struct ChannelId(pub u32);

impl Wire for ChannelId {
    open spec fn wire(&self) -> Seq<u8> {
        self.0.wire()
    }

    open spec fn wire_len() -> nat {
        4
    }

    proof fn lemma_wire_len(&self) {
        self.0.lemma_wire_len();
    }

    proof fn lemma_injective(&self, other: &Self) {
        self.0.lemma_injective(&other.0);
    }

    fn wire_size() -> (n: usize) {
        4
    }

    fn write_to(&self, out: &mut Vec<u8>) {
        self.0.write_to(out);
    }

    fn read_at(bytes: &[u8], off: usize) -> (r: Self) {
        let r = ChannelId(u32::read_at(bytes, off));
        r
    }
}

/// Identifies a GPADL on a connection.
#[derive(Copy, Clone, Debug, Default, PartialEq, Eq, PartialOrd, Ord, Hash, Structural)]
pub struct GpadlId(pub u32);

impl Wire for GpadlId {
    open spec fn wire(&self) -> Seq<u8> {
        self.0.wire()
    }

    open spec fn wire_len() -> nat {
        4
    }

    proof fn lemma_wire_len(&self) {
        self.0.lemma_wire_len();
    }

    proof fn lemma_injective(&self, other: &Self) {
        self.0.lemma_injective(&other.0);
    }

    fn wire_size() -> (n: usize) {
        4
    }

    fn write_to(&self, out: &mut Vec<u8>) {
        self.0.write_to(out);
    }

    fn read_at(bytes: &[u8], off: usize) -> (r: Self) {
        let r = GpadlId(u32::read_at(bytes, off));
        r
    }
}

/// A virtual trust level.
#[derive(Copy, Clone, Debug, PartialEq, Eq, Structural)]
pub enum Vtl {
    Vtl0,
    Vtl1,
    Vtl2,
}

impl Vtl {
    /// The level as a number.
    pub open spec fn level(self) -> u8 {
        match self {
            Vtl::Vtl0 => 0,
            Vtl::Vtl1 => 1,
            Vtl::Vtl2 => 2,
        }
    }

    /// The level as a number.
    pub fn raw(self) -> (r: u8)
        ensures
            r == self.level(),
    {
        match self {
            Vtl::Vtl0 => 0,
            Vtl::Vtl1 => 1,
            Vtl::Vtl2 => 2,
        }
    }
}

/// Composite connection id used when signalling the host on Copper+.
#[derive(Copy, Clone, Debug, PartialEq, Eq, Structural)]
pub struct ConnectionId(pub u32);

impl ConnectionId {
    /// Channel id in the low bits, then the SINT, then the trust level.
    pub fn new(channel_id: u32, vtl: Vtl, sint: u8) -> (r: Self)
        ensures
            r.0 == channel_id | (sint as u32) << 12u32 | (vtl.level() as u32) << 16u32,
    {
        ConnectionId(channel_id | (sint as u32) << 12u32 | (vtl.raw() as u32) << 16u32)
    }
}

// ---------------------------------------------------------------------------
// InitiateContact / VersionResponse
// ---------------------------------------------------------------------------
/// Guest to host: ask for a protocol version.
#[derive(Copy, Clone, Debug, PartialEq, Eq)]
pub struct InitiateContact {
    pub version_requested: u32,
    pub target_message_vp: u32,
    pub interrupt_page_or_target_info: u64,
    pub parent_to_child_monitor_page_gpa: u64,
    pub child_to_parent_monitor_page_gpa: u64,
}

impl Wire for InitiateContact {
    open spec fn wire(&self) -> Seq<u8> {
        self.version_requested.wire()
            + self.target_message_vp.wire()
            + self.interrupt_page_or_target_info.wire()
            + self.parent_to_child_monitor_page_gpa.wire()
            + self.child_to_parent_monitor_page_gpa.wire()
    }

    open spec fn wire_len() -> nat {
        32
    }

    proof fn lemma_wire_len(&self) {
        self.version_requested.lemma_wire_len();
        self.target_message_vp.lemma_wire_len();
        self.interrupt_page_or_target_info.lemma_wire_len();
        self.parent_to_child_monitor_page_gpa.lemma_wire_len();
        self.child_to_parent_monitor_page_gpa.lemma_wire_len();
    }

    proof fn lemma_injective(&self, other: &Self) {
        self.version_requested.lemma_wire_len();
        other.version_requested.lemma_wire_len();
        self.target_message_vp.lemma_wire_len();
        other.target_message_vp.lemma_wire_len();
        self.interrupt_page_or_target_info.lemma_wire_len();
        other.interrupt_page_or_target_info.lemma_wire_len();
        self.parent_to_child_monitor_page_gpa.lemma_wire_len();
        other.parent_to_child_monitor_page_gpa.lemma_wire_len();
        self.child_to_parent_monitor_page_gpa.lemma_wire_len();
        other.child_to_parent_monitor_page_gpa.lemma_wire_len();
        let b = self.wire();
        assert(self.version_requested.wire() =~= b.subrange(0, 4));
        assert(other.version_requested.wire() =~= b.subrange(0, 4));
        self.version_requested.lemma_injective(&other.version_requested);
        assert(self.target_message_vp.wire() =~= b.subrange(4, 8));
        assert(other.target_message_vp.wire() =~= b.subrange(4, 8));
        self.target_message_vp.lemma_injective(&other.target_message_vp);
        assert(self.interrupt_page_or_target_info.wire() =~= b.subrange(8, 16));
        assert(other.interrupt_page_or_target_info.wire() =~= b.subrange(8, 16));
        self.interrupt_page_or_target_info.lemma_injective(&other.interrupt_page_or_target_info);
        assert(self.parent_to_child_monitor_page_gpa.wire() =~= b.subrange(16, 24));
        assert(other.parent_to_child_monitor_page_gpa.wire() =~= b.subrange(16, 24));
        self.parent_to_child_monitor_page_gpa.lemma_injective(&other.parent_to_child_monitor_page_gpa);
        assert(self.child_to_parent_monitor_page_gpa.wire() =~= b.subrange(24, 32));
        assert(other.child_to_parent_monitor_page_gpa.wire() =~= b.subrange(24, 32));
        self.child_to_parent_monitor_page_gpa.lemma_injective(&other.child_to_parent_monitor_page_gpa);
    }

    fn wire_size() -> (n: usize) {
        32
    }

    fn write_to(&self, out: &mut Vec<u8>) {
        self.version_requested.write_to(out);
        self.target_message_vp.write_to(out);
        self.interrupt_page_or_target_info.write_to(out);
        self.parent_to_child_monitor_page_gpa.write_to(out);
        self.child_to_parent_monitor_page_gpa.write_to(out);
        proof {
            assert(out@ =~= old(out)@ + self.wire());
        }
    }

    fn read_at(bytes: &[u8], off: usize) -> (r: Self) {
        proof {
            wire::lemma_slice_len(bytes);
        }
        let r = InitiateContact {
            version_requested: u32::read_at(bytes, off),
            target_message_vp: u32::read_at(bytes, off + 4),
            interrupt_page_or_target_info: u64::read_at(bytes, off + 8),
            parent_to_child_monitor_page_gpa: u64::read_at(bytes, off + 16),
            child_to_parent_monitor_page_gpa: u64::read_at(bytes, off + 24),
        };
        proof {
            r.lemma_wire_len();
            r.version_requested.lemma_wire_len();
            r.target_message_vp.lemma_wire_len();
            r.interrupt_page_or_target_info.lemma_wire_len();
            r.parent_to_child_monitor_page_gpa.lemma_wire_len();
            r.child_to_parent_monitor_page_gpa.lemma_wire_len();
            assert(r.wire() =~= bytes@.subrange(off as int, off + 32));
        }
        r
    }
}

impl VmbusMessage for InitiateContact {
    const MESSAGE_TYPE: u32 = MessageType::INITIATE_CONTACT;

    const MESSAGE_SIZE: usize = 40;

    open spec fn type_word() -> u32 {
        MessageType::INITIATE_CONTACT
    }

    proof fn lemma_message() {
    }
}

/// [`InitiateContact`] with the guest's identity.
#[derive(Copy, Clone, Debug, PartialEq, Eq)]
pub struct InitiateContact2 {
    pub initiate_contact: InitiateContact,
    pub client_id: Guid,
}

impl Wire for InitiateContact2 {
    open spec fn wire(&self) -> Seq<u8> {
        self.initiate_contact.wire() + self.client_id.wire()
    }

    open spec fn wire_len() -> nat {
        48
    }

    proof fn lemma_wire_len(&self) {
        self.initiate_contact.lemma_wire_len();
        self.client_id.lemma_wire_len();
    }

    proof fn lemma_injective(&self, other: &Self) {
        self.initiate_contact.lemma_wire_len();
        other.initiate_contact.lemma_wire_len();
        self.client_id.lemma_wire_len();
        other.client_id.lemma_wire_len();
        let b = self.wire();
        assert(self.initiate_contact.wire() =~= b.subrange(0, 32));
        assert(other.initiate_contact.wire() =~= b.subrange(0, 32));
        self.initiate_contact.lemma_injective(&other.initiate_contact);
        assert(self.client_id.wire() =~= b.subrange(32, 48));
        assert(other.client_id.wire() =~= b.subrange(32, 48));
        self.client_id.lemma_injective(&other.client_id);
    }

    fn wire_size() -> (n: usize) {
        48
    }

    fn write_to(&self, out: &mut Vec<u8>) {
        self.initiate_contact.write_to(out);
        self.client_id.write_to(out);
        proof {
            assert(out@ =~= old(out)@ + self.wire());
        }
    }

    fn read_at(bytes: &[u8], off: usize) -> (r: Self) {
        proof {
            wire::lemma_slice_len(bytes);
        }
        let r = InitiateContact2 {
            initiate_contact: InitiateContact::read_at(bytes, off),
            client_id: Guid::read_at(bytes, off + 32),
        };
        proof {
            r.lemma_wire_len();
            r.initiate_contact.lemma_wire_len();
            r.client_id.lemma_wire_len();
            assert(r.wire() =~= bytes@.subrange(off as int, off + 48));
        }
        r
    }
}

impl VmbusMessage for InitiateContact2 {
    const MESSAGE_TYPE: u32 = MessageType::INITIATE_CONTACT;

    const MESSAGE_SIZE: usize = 56;

    open spec fn type_word() -> u32 {
        MessageType::INITIATE_CONTACT
    }

    proof fn lemma_message() {
    }
}

impl From<InitiateContact> for InitiateContact2 {
    fn from(value: InitiateContact) -> (r: Self) {
        let zero = Guid::new_zeroed();
        proof {
            wire::lemma_decoded(zero);
        }
        InitiateContact2 { initiate_contact: value, client_id: zero }
    }
}

impl vstd::std_specs::convert::FromSpecImpl<InitiateContact> for InitiateContact2 {
    open spec fn obeys_from_spec() -> bool {
        true
    }

    open spec fn from_spec(v: InitiateContact) -> Self {
        InitiateContact2 { initiate_contact: v, client_id: Guid::zero() }
    }
}

/// Where host messages are to be delivered: SINT in the lowest byte, then
/// the trust level, then two bytes of padding, then the feature flags.
#[derive(Copy, Clone, Debug, PartialEq, Eq, Structural)]
pub struct TargetInfo(pub u64);

impl TargetInfo {
    /// All fields zero.
    pub fn new() -> (r: Self)
        ensures
            r.0 == 0,
    {
        TargetInfo(0)
    }

    /// The SINT.
    pub fn sint(&self) -> (r: u8)
        ensures
            r == self.0 % 256,
    {
        (self.0 % 256) as u8
    }

    /// The trust level.
    pub fn vtl(&self) -> (r: u8)
        ensures
            r == self.0 / 256 % 256,
    {
        (self.0 / 256 % 256) as u8
    }

    /// The feature flags.
    pub fn feature_flags(&self) -> (r: u32)
        ensures
            r == self.0 / 0x1_0000_0000,
    {
        (self.0 / 0x1_0000_0000) as u32
    }

    /// Replace the SINT.
    pub fn with_sint(self, sint: u8) -> (r: Self)
        ensures
            r.0 == self.0 - self.0 % 256 + sint,
    {
        TargetInfo(self.0 - self.0 % 256 + sint as u64)
    }

    /// Replace the trust level.
    pub fn with_vtl(self, vtl: u8) -> (r: Self)
        ensures
            r.0 == self.0 - 256 * (self.0 / 256 % 256) + 256 * vtl,
    {
        TargetInfo(self.0 - 256 * (self.0 / 256 % 256) + 256 * (vtl as u64))
    }

    /// Replace the feature flags.
    pub fn with_feature_flags(self, flags: u32) -> (r: Self)
        ensures
            r.0 == self.0 % 0x1_0000_0000 + 0x1_0000_0000 * flags,
    {
        TargetInfo(self.0 % 0x1_0000_0000 + 0x1_0000_0000 * (flags as u64))
    }
}

/// How the host rates a connection attempt. Any value can occur.
#[derive(Copy, Clone, Debug, PartialEq, Eq, Structural)]
pub struct ConnectionState(pub u8);

impl Wire for ConnectionState {
    open spec fn wire(&self) -> Seq<u8> {
        self.0.wire()
    }

    open spec fn wire_len() -> nat {
        1
    }

    proof fn lemma_wire_len(&self) {
        self.0.lemma_wire_len();
    }

    proof fn lemma_injective(&self, other: &Self) {
        self.0.lemma_injective(&other.0);
    }

    fn wire_size() -> (n: usize) {
        1
    }

    fn write_to(&self, out: &mut Vec<u8>) {
        self.0.write_to(out);
    }

    fn read_at(bytes: &[u8], off: usize) -> (r: Self) {
        let r = ConnectionState(u8::read_at(bytes, off));
        r
    }
}

impl ConnectionState {
    pub const SUCCESSFUL: u8 = 0;

    pub const FAILED_LOW_RESOURCES: u8 = 1;

    pub const FAILED_UNKNOWN_FAILURE: u8 = 2;
}

/// Host to guest: answer to [`InitiateContact`].
#[derive(Copy, Clone, Debug, PartialEq, Eq)]
pub struct VersionResponse {
    pub version_supported: u8,
    pub connection_state: ConnectionState,
    pub padding: u16,
    pub selected_version_or_connection_id: u32,
}

impl Wire for VersionResponse {
    open spec fn wire(&self) -> Seq<u8> {
        self.version_supported.wire()
            + self.connection_state.wire()
            + self.padding.wire()
            + self.selected_version_or_connection_id.wire()
    }

    open spec fn wire_len() -> nat {
        8
    }

    proof fn lemma_wire_len(&self) {
        self.version_supported.lemma_wire_len();
        self.connection_state.lemma_wire_len();
        self.padding.lemma_wire_len();
        self.selected_version_or_connection_id.lemma_wire_len();
    }

    proof fn lemma_injective(&self, other: &Self) {
        self.version_supported.lemma_wire_len();
        other.version_supported.lemma_wire_len();
        self.connection_state.lemma_wire_len();
        other.connection_state.lemma_wire_len();
        self.padding.lemma_wire_len();
        other.padding.lemma_wire_len();
        self.selected_version_or_connection_id.lemma_wire_len();
        other.selected_version_or_connection_id.lemma_wire_len();
        let b = self.wire();
        assert(self.version_supported.wire() =~= b.subrange(0, 1));
        assert(other.version_supported.wire() =~= b.subrange(0, 1));
        self.version_supported.lemma_injective(&other.version_supported);
        assert(self.connection_state.wire() =~= b.subrange(1, 2));
        assert(other.connection_state.wire() =~= b.subrange(1, 2));
        self.connection_state.lemma_injective(&other.connection_state);
        assert(self.padding.wire() =~= b.subrange(2, 4));
        assert(other.padding.wire() =~= b.subrange(2, 4));
        self.padding.lemma_injective(&other.padding);
        assert(self.selected_version_or_connection_id.wire() =~= b.subrange(4, 8));
        assert(other.selected_version_or_connection_id.wire() =~= b.subrange(4, 8));
        self.selected_version_or_connection_id.lemma_injective(&other.selected_version_or_connection_id);
    }

    fn wire_size() -> (n: usize) {
        8
    }

    fn write_to(&self, out: &mut Vec<u8>) {
        self.version_supported.write_to(out);
        self.connection_state.write_to(out);
        self.padding.write_to(out);
        self.selected_version_or_connection_id.write_to(out);
        proof {
            assert(out@ =~= old(out)@ + self.wire());
        }
    }

    fn read_at(bytes: &[u8], off: usize) -> (r: Self) {
        proof {
            wire::lemma_slice_len(bytes);
        }
        let r = VersionResponse {
            version_supported: u8::read_at(bytes, off),
            connection_state: ConnectionState::read_at(bytes, off + 1),
            padding: u16::read_at(bytes, off + 2),
            selected_version_or_connection_id: u32::read_at(bytes, off + 4),
        };
        proof {
            r.lemma_wire_len();
            r.version_supported.lemma_wire_len();
            r.connection_state.lemma_wire_len();
            r.padding.lemma_wire_len();
            r.selected_version_or_connection_id.lemma_wire_len();
            assert(r.wire() =~= bytes@.subrange(off as int, off + 8));
        }
        r
    }
}

impl VmbusMessage for VersionResponse {
    const MESSAGE_TYPE: u32 = MessageType::VERSION_RESPONSE;

    const MESSAGE_SIZE: usize = 16;

    open spec fn type_word() -> u32 {
        MessageType::VERSION_RESPONSE
    }

    proof fn lemma_message() {
    }
}

/// [`VersionResponse`] with the host's feature flags.
#[derive(Copy, Clone, Debug, PartialEq, Eq)]
pub struct VersionResponse2 {
    pub version_response: VersionResponse,
    pub supported_features: u32,
}

impl Wire for VersionResponse2 {
    open spec fn wire(&self) -> Seq<u8> {
        self.version_response.wire() + self.supported_features.wire()
    }

    open spec fn wire_len() -> nat {
        12
    }

    proof fn lemma_wire_len(&self) {
        self.version_response.lemma_wire_len();
        self.supported_features.lemma_wire_len();
    }

    proof fn lemma_injective(&self, other: &Self) {
        self.version_response.lemma_wire_len();
        other.version_response.lemma_wire_len();
        self.supported_features.lemma_wire_len();
        other.supported_features.lemma_wire_len();
        let b = self.wire();
        assert(self.version_response.wire() =~= b.subrange(0, 8));
        assert(other.version_response.wire() =~= b.subrange(0, 8));
        self.version_response.lemma_injective(&other.version_response);
        assert(self.supported_features.wire() =~= b.subrange(8, 12));
        assert(other.supported_features.wire() =~= b.subrange(8, 12));
        self.supported_features.lemma_injective(&other.supported_features);
    }

    fn wire_size() -> (n: usize) {
        12
    }

    fn write_to(&self, out: &mut Vec<u8>) {
        self.version_response.write_to(out);
        self.supported_features.write_to(out);
        proof {
            assert(out@ =~= old(out)@ + self.wire());
        }
    }

    fn read_at(bytes: &[u8], off: usize) -> (r: Self) {
        proof {
            wire::lemma_slice_len(bytes);
        }
        let r = VersionResponse2 {
            version_response: VersionResponse::read_at(bytes, off),
            supported_features: u32::read_at(bytes, off + 8),
        };
        proof {
            r.lemma_wire_len();
            r.version_response.lemma_wire_len();
            r.supported_features.lemma_wire_len();
            assert(r.wire() =~= bytes@.subrange(off as int, off + 12));
        }
        r
    }
}

impl VmbusMessage for VersionResponse2 {
    const MESSAGE_TYPE: u32 = MessageType::VERSION_RESPONSE;

    const MESSAGE_SIZE: usize = 20;

    open spec fn type_word() -> u32 {
        MessageType::VERSION_RESPONSE
    }

    proof fn lemma_message() {
    }
}

/// [`VersionResponse2`] with server-provided monitor pages.
#[derive(Copy, Clone, Debug, PartialEq, Eq)]
pub struct VersionResponse3 {
    pub version_response2: VersionResponse2,
    pub _padding: u32,
    pub parent_to_child_monitor_page_gpa: u64,
    pub child_to_parent_monitor_page_gpa: u64,
}

impl Wire for VersionResponse3 {
    open spec fn wire(&self) -> Seq<u8> {
        self.version_response2.wire()
            + self._padding.wire()
            + self.parent_to_child_monitor_page_gpa.wire()
            + self.child_to_parent_monitor_page_gpa.wire()
    }

    open spec fn wire_len() -> nat {
        32
    }

    proof fn lemma_wire_len(&self) {
        self.version_response2.lemma_wire_len();
        self._padding.lemma_wire_len();
        self.parent_to_child_monitor_page_gpa.lemma_wire_len();
        self.child_to_parent_monitor_page_gpa.lemma_wire_len();
    }

    proof fn lemma_injective(&self, other: &Self) {
        self.version_response2.lemma_wire_len();
        other.version_response2.lemma_wire_len();
        self._padding.lemma_wire_len();
        other._padding.lemma_wire_len();
        self.parent_to_child_monitor_page_gpa.lemma_wire_len();
        other.parent_to_child_monitor_page_gpa.lemma_wire_len();
        self.child_to_parent_monitor_page_gpa.lemma_wire_len();
        other.child_to_parent_monitor_page_gpa.lemma_wire_len();
        let b = self.wire();
        assert(self.version_response2.wire() =~= b.subrange(0, 12));
        assert(other.version_response2.wire() =~= b.subrange(0, 12));
        self.version_response2.lemma_injective(&other.version_response2);
        assert(self._padding.wire() =~= b.subrange(12, 16));
        assert(other._padding.wire() =~= b.subrange(12, 16));
        self._padding.lemma_injective(&other._padding);
        assert(self.parent_to_child_monitor_page_gpa.wire() =~= b.subrange(16, 24));
        assert(other.parent_to_child_monitor_page_gpa.wire() =~= b.subrange(16, 24));
        self.parent_to_child_monitor_page_gpa.lemma_injective(&other.parent_to_child_monitor_page_gpa);
        assert(self.child_to_parent_monitor_page_gpa.wire() =~= b.subrange(24, 32));
        assert(other.child_to_parent_monitor_page_gpa.wire() =~= b.subrange(24, 32));
        self.child_to_parent_monitor_page_gpa.lemma_injective(&other.child_to_parent_monitor_page_gpa);
    }

    fn wire_size() -> (n: usize) {
        32
    }

    fn write_to(&self, out: &mut Vec<u8>) {
        self.version_response2.write_to(out);
        self._padding.write_to(out);
        self.parent_to_child_monitor_page_gpa.write_to(out);
        self.child_to_parent_monitor_page_gpa.write_to(out);
        proof {
            assert(out@ =~= old(out)@ + self.wire());
        }
    }

    fn read_at(bytes: &[u8], off: usize) -> (r: Self) {
        proof {
            wire::lemma_slice_len(bytes);
        }
        let r = VersionResponse3 {
            version_response2: VersionResponse2::read_at(bytes, off),
            _padding: u32::read_at(bytes, off + 12),
            parent_to_child_monitor_page_gpa: u64::read_at(bytes, off + 16),
            child_to_parent_monitor_page_gpa: u64::read_at(bytes, off + 24),
        };
        proof {
            r.lemma_wire_len();
            r.version_response2.lemma_wire_len();
            r._padding.lemma_wire_len();
            r.parent_to_child_monitor_page_gpa.lemma_wire_len();
            r.child_to_parent_monitor_page_gpa.lemma_wire_len();
            assert(r.wire() =~= bytes@.subrange(off as int, off + 32));
        }
        r
    }
}

impl VmbusMessage for VersionResponse3 {
    const MESSAGE_TYPE: u32 = MessageType::VERSION_RESPONSE;

    const MESSAGE_SIZE: usize = 40;

    open spec fn type_word() -> u32 {
        MessageType::VERSION_RESPONSE
    }

    proof fn lemma_message() {
    }
}

// ---------------------------------------------------------------------------
// Offer / user-defined
// ---------------------------------------------------------------------------
/// Device-specific bytes in an offer or an open request.
#[derive(Copy, Clone, Debug, PartialEq, Eq)]
pub struct UserDefinedData(pub [u8; 120]);

impl Wire for UserDefinedData {
    open spec fn wire(&self) -> Seq<u8> {
        self.0.wire()
    }

    open spec fn wire_len() -> nat {
        120
    }

    proof fn lemma_wire_len(&self) {
        self.0.lemma_wire_len();
    }

    proof fn lemma_injective(&self, other: &Self) {
        self.0.lemma_injective(&other.0);
    }

    fn wire_size() -> (n: usize) {
        120
    }

    fn write_to(&self, out: &mut Vec<u8>) {
        self.0.write_to(out);
    }

    fn read_at(bytes: &[u8], off: usize) -> (r: Self) {
        let r = UserDefinedData(<[u8; 120]>::read_at(bytes, off));
        r
    }
}

impl Default for UserDefinedData {
    fn default() -> (r: Self)
        ensures
            r.0@ == wire::zeros(120),
    {
        UserDefinedData::new_zeroed()
    }
}

impl UserDefinedData {
    /// Whether every byte is zero.
    pub open spec fn all_zero(&self) -> bool {
        forall|i: int| 0 <= i < 120 ==> #[trigger] self.0@[i] == 0
    }

    /// The leading bytes, read as hv-socket parameters.
    pub fn as_hvsock_params(&self) -> (r: HvsockUserDefinedParameters)
        ensures
            r.wire() == self.0@.subrange(0, 28),
    {
        let bytes = self.0.as_slice();
        HvsockUserDefinedParameters::read_at(bytes, 0)
    }

    /// The text of [`Self::debug_text`].
    pub open spec fn text(&self) -> Seq<char> {
        if self.all_zero() {
            "UserDefinedData([<all-zeroes>])"@
        } else {
            "UserDefinedData(["@ + hex_text(self.0@) + "])"@
        }
    }

    /// The bytes in upper-case hexadecimal, for a log; data that is all
    /// zeroes is abbreviated.
    pub fn debug_text(&self) -> (r: String)
        ensures
            r@ == self.text(),
    {
        let mut zero: bool = true;
        let mut i: usize = 0;
        while i < 120
            invariant
                i <= 120,
                zero == (forall|j: int| 0 <= j < i ==> #[trigger] self.0@[j] == 0),
            decreases 120 - i,
        {
            if self.0[i] != 0 {
                zero = false;
            }
            i += 1;
        }
        if zero {
            return String::from_str("UserDefinedData([<all-zeroes>])");
        }
        let mut text = String::from_str("UserDefinedData([");
        let mut n: usize = 0;
        proof {
            assert(text@ =~= "UserDefinedData(["@ + hex_text(self.0@.take(0)));
        }
        while n < 120
            invariant
                n <= 120,
                text@ == "UserDefinedData(["@ + hex_text(self.0@.take(n as int)),
            decreases 120 - n,
        {
            let byte = self.0[n];
            text.append(hex_digit(byte / 16));
            text.append(hex_digit(byte % 16));
            proof {
                assert(self.0@.take(n + 1).drop_last() =~= self.0@.take(n as int));
                assert(text@ =~= "UserDefinedData(["@ + hex_text(self.0@.take(n + 1)));
            }
            n += 1;
        }
        text.append("])");
        proof {
            assert(self.0@.take(120) =~= self.0@);
        }
        text
    }
}

/// The digit for a value below 16.
pub open spec fn digit_text(n: u8) -> Seq<char> {
    match n {
        0 => "0"@,
        1 => "1"@,
        2 => "2"@,
        3 => "3"@,
        4 => "4"@,
        5 => "5"@,
        6 => "6"@,
        7 => "7"@,
        8 => "8"@,
        9 => "9"@,
        10 => "A"@,
        11 => "B"@,
        12 => "C"@,
        13 => "D"@,
        14 => "E"@,
        _ => "F"@,
    }
}

/// The digit for a value below 16.
fn hex_digit(n: u8) -> (r: &'static str)
    ensures
        r@ == digit_text(n),
{
    match n {
        0 => "0",
        1 => "1",
        2 => "2",
        3 => "3",
        4 => "4",
        5 => "5",
        6 => "6",
        7 => "7",
        8 => "8",
        9 => "9",
        10 => "A",
        11 => "B",
        12 => "C",
        13 => "D",
        14 => "E",
        _ => "F",
    }
}

/// Bytes in upper-case hexadecimal, two digits each.
pub open spec fn hex_text(bytes: Seq<u8>) -> Seq<char>
    decreases bytes.len(),
{
    if bytes.len() == 0 {
        Seq::empty()
    } else {
        hex_text(bytes.drop_last()) + digit_text(bytes.last() / 16) + digit_text(
            bytes.last() % 16,
        )
    }
}

/// Properties of an offered channel.
#[derive(Copy, Clone, Debug, PartialEq, Eq, Structural)]
pub struct OfferFlags(pub u16);

impl Wire for OfferFlags {
    open spec fn wire(&self) -> Seq<u8> {
        self.0.wire()
    }

    open spec fn wire_len() -> nat {
        2
    }

    proof fn lemma_wire_len(&self) {
        self.0.lemma_wire_len();
    }

    proof fn lemma_injective(&self, other: &Self) {
        self.0.lemma_injective(&other.0);
    }

    fn wire_size() -> (n: usize) {
        2
    }

    fn write_to(&self, out: &mut Vec<u8>) {
        self.0.write_to(out);
    }

    fn read_at(bytes: &[u8], off: usize) -> (r: Self) {
        let r = OfferFlags(u16::read_at(bytes, off));
        r
    }
}

impl OfferFlags {
    /// No flag set.
    pub fn new() -> (r: Self)
        ensures
            r.0 == 0,
    {
        OfferFlags(0)
    }

    /// The flags in `bits`.
    pub fn from_bits(bits: u16) -> (r: Self)
        ensures
            r.0 == bits,
    {
        OfferFlags(bits)
    }

    /// The flags as an integer.
    pub fn into_bits(self) -> (r: u16)
        ensures
            r == self.0,
    {
        self.0
    }

    /// The device interface is enumerable.
    pub fn enumerate_device_interface(&self) -> (r: bool)
        ensures
            r == (self.0 & 0x1 != 0),
    {
        self.0 & 0x1 != 0
    }

    /// Set or clear [`Self::enumerate_device_interface`].
    pub fn with_enumerate_device_interface(self, v: bool) -> (r: Self)
        ensures
            r.0 == with_bits16(self.0, 0x1, v),
    {
        if v {
            OfferFlags(self.0 | 0x1)
        } else {
            OfferFlags(self.0 & !0x1u16)
        }
    }

    /// The ring buffer is encrypted.
    pub fn confidential_ring_buffer(&self) -> (r: bool)
        ensures
            r == (self.0 & 0x2 != 0),
    {
        self.0 & 0x2 != 0
    }

    /// Set or clear [`Self::confidential_ring_buffer`].
    pub fn with_confidential_ring_buffer(self, v: bool) -> (r: Self)
        ensures
            r.0 == with_bits16(self.0, 0x2, v),
    {
        if v {
            OfferFlags(self.0 | 0x2)
        } else {
            OfferFlags(self.0 & !0x2u16)
        }
    }

    /// External memory is encrypted.
    pub fn confidential_external_memory(&self) -> (r: bool)
        ensures
            r == (self.0 & 0x4 != 0),
    {
        self.0 & 0x4 != 0
    }

    /// Set or clear [`Self::confidential_external_memory`].
    pub fn with_confidential_external_memory(self, v: bool) -> (r: Self)
        ensures
            r.0 == with_bits16(self.0, 0x4, v),
    {
        if v {
            OfferFlags(self.0 | 0x4)
        } else {
            OfferFlags(self.0 & !0x4u16)
        }
    }

    /// The channel carries a named pipe.
    pub fn named_pipe_mode(&self) -> (r: bool)
        ensures
            r == (self.0 & 0x10 != 0),
    {
        self.0 & 0x10 != 0
    }

    /// Set or clear [`Self::named_pipe_mode`].
    pub fn with_named_pipe_mode(self, v: bool) -> (r: Self)
        ensures
            r.0 == with_bits16(self.0, 0x10, v),
    {
        if v {
            OfferFlags(self.0 | 0x10)
        } else {
            OfferFlags(self.0 & !0x10u16)
        }
    }

    /// The channel is an hv-socket.
    pub fn tlnpi_provider(&self) -> (r: bool)
        ensures
            r == (self.0 & 0x2000 != 0),
    {
        self.0 & 0x2000 != 0
    }

    /// Set or clear [`Self::tlnpi_provider`].
    pub fn with_tlnpi_provider(self, v: bool) -> (r: Self)
        ensures
            r.0 == with_bits16(self.0, 0x2000, v),
    {
        if v {
            OfferFlags(self.0 | 0x2000)
        } else {
            OfferFlags(self.0 & !0x2000u16)
        }
    }
}

/// Host to guest: a channel that can be opened.
#[derive(Copy, Clone, Debug, PartialEq, Eq)]
pub struct OfferChannel {
    pub interface_id: Guid,
    pub instance_id: Guid,
    pub rsvd: [u32; 4],
    pub flags: OfferFlags,
    pub mmio_megabytes: u16,
    pub user_defined: UserDefinedData,
    pub subchannel_index: u16,
    pub mmio_megabytes_optional: u16,
    pub channel_id: ChannelId,
    pub monitor_id: u8,
    pub monitor_allocated: u8,
    pub is_dedicated: u16,
    pub connection_id: u32,
}

impl Wire for OfferChannel {
    open spec fn wire(&self) -> Seq<u8> {
        self.interface_id.wire()
            + self.instance_id.wire()
            + self.rsvd.wire()
            + self.flags.wire()
            + self.mmio_megabytes.wire()
            + self.user_defined.wire()
            + self.subchannel_index.wire()
            + self.mmio_megabytes_optional.wire()
            + self.channel_id.wire()
            + self.monitor_id.wire()
            + self.monitor_allocated.wire()
            + self.is_dedicated.wire()
            + self.connection_id.wire()
    }

    open spec fn wire_len() -> nat {
        188
    }

    proof fn lemma_wire_len(&self) {
        self.interface_id.lemma_wire_len();
        self.instance_id.lemma_wire_len();
        self.rsvd.lemma_wire_len();
        self.flags.lemma_wire_len();
        self.mmio_megabytes.lemma_wire_len();
        self.user_defined.lemma_wire_len();
        self.subchannel_index.lemma_wire_len();
        self.mmio_megabytes_optional.lemma_wire_len();
        self.channel_id.lemma_wire_len();
        self.monitor_id.lemma_wire_len();
        self.monitor_allocated.lemma_wire_len();
        self.is_dedicated.lemma_wire_len();
        self.connection_id.lemma_wire_len();
    }

    proof fn lemma_injective(&self, other: &Self) {
        self.interface_id.lemma_wire_len();
        other.interface_id.lemma_wire_len();
        self.instance_id.lemma_wire_len();
        other.instance_id.lemma_wire_len();
        self.rsvd.lemma_wire_len();
        other.rsvd.lemma_wire_len();
        self.flags.lemma_wire_len();
        other.flags.lemma_wire_len();
        self.mmio_megabytes.lemma_wire_len();
        other.mmio_megabytes.lemma_wire_len();
        self.user_defined.lemma_wire_len();
        other.user_defined.lemma_wire_len();
        self.subchannel_index.lemma_wire_len();
        other.subchannel_index.lemma_wire_len();
        self.mmio_megabytes_optional.lemma_wire_len();
        other.mmio_megabytes_optional.lemma_wire_len();
        self.channel_id.lemma_wire_len();
        other.channel_id.lemma_wire_len();
        self.monitor_id.lemma_wire_len();
        other.monitor_id.lemma_wire_len();
        self.monitor_allocated.lemma_wire_len();
        other.monitor_allocated.lemma_wire_len();
        self.is_dedicated.lemma_wire_len();
        other.is_dedicated.lemma_wire_len();
        self.connection_id.lemma_wire_len();
        other.connection_id.lemma_wire_len();
        let b = self.wire();
        assert(self.interface_id.wire() =~= b.subrange(0, 16));
        assert(other.interface_id.wire() =~= b.subrange(0, 16));
        self.interface_id.lemma_injective(&other.interface_id);
        assert(self.instance_id.wire() =~= b.subrange(16, 32));
        assert(other.instance_id.wire() =~= b.subrange(16, 32));
        self.instance_id.lemma_injective(&other.instance_id);
        assert(self.rsvd.wire() =~= b.subrange(32, 48));
        assert(other.rsvd.wire() =~= b.subrange(32, 48));
        self.rsvd.lemma_injective(&other.rsvd);
        assert(self.flags.wire() =~= b.subrange(48, 50));
        assert(other.flags.wire() =~= b.subrange(48, 50));
        self.flags.lemma_injective(&other.flags);
        assert(self.mmio_megabytes.wire() =~= b.subrange(50, 52));
        assert(other.mmio_megabytes.wire() =~= b.subrange(50, 52));
        self.mmio_megabytes.lemma_injective(&other.mmio_megabytes);
        assert(self.user_defined.wire() =~= b.subrange(52, 172));
        assert(other.user_defined.wire() =~= b.subrange(52, 172));
        self.user_defined.lemma_injective(&other.user_defined);
        assert(self.subchannel_index.wire() =~= b.subrange(172, 174));
        assert(other.subchannel_index.wire() =~= b.subrange(172, 174));
        self.subchannel_index.lemma_injective(&other.subchannel_index);
        assert(self.mmio_megabytes_optional.wire() =~= b.subrange(174, 176));
        assert(other.mmio_megabytes_optional.wire() =~= b.subrange(174, 176));
        self.mmio_megabytes_optional.lemma_injective(&other.mmio_megabytes_optional);
        assert(self.channel_id.wire() =~= b.subrange(176, 180));
        assert(other.channel_id.wire() =~= b.subrange(176, 180));
        self.channel_id.lemma_injective(&other.channel_id);
        assert(self.monitor_id.wire() =~= b.subrange(180, 181));
        assert(other.monitor_id.wire() =~= b.subrange(180, 181));
        self.monitor_id.lemma_injective(&other.monitor_id);
        assert(self.monitor_allocated.wire() =~= b.subrange(181, 182));
        assert(other.monitor_allocated.wire() =~= b.subrange(181, 182));
        self.monitor_allocated.lemma_injective(&other.monitor_allocated);
        assert(self.is_dedicated.wire() =~= b.subrange(182, 184));
        assert(other.is_dedicated.wire() =~= b.subrange(182, 184));
        self.is_dedicated.lemma_injective(&other.is_dedicated);
        assert(self.connection_id.wire() =~= b.subrange(184, 188));
        assert(other.connection_id.wire() =~= b.subrange(184, 188));
        self.connection_id.lemma_injective(&other.connection_id);
    }

    fn wire_size() -> (n: usize) {
        188
    }

    fn write_to(&self, out: &mut Vec<u8>) {
        self.interface_id.write_to(out);
        self.instance_id.write_to(out);
        self.rsvd.write_to(out);
        self.flags.write_to(out);
        self.mmio_megabytes.write_to(out);
        self.user_defined.write_to(out);
        self.subchannel_index.write_to(out);
        self.mmio_megabytes_optional.write_to(out);
        self.channel_id.write_to(out);
        self.monitor_id.write_to(out);
        self.monitor_allocated.write_to(out);
        self.is_dedicated.write_to(out);
        self.connection_id.write_to(out);
        proof {
            assert(out@ =~= old(out)@ + self.wire());
        }
    }

    fn read_at(bytes: &[u8], off: usize) -> (r: Self) {
        proof {
            wire::lemma_slice_len(bytes);
        }
        let r = OfferChannel {
            interface_id: Guid::read_at(bytes, off),
            instance_id: Guid::read_at(bytes, off + 16),
            rsvd: <[u32; 4]>::read_at(bytes, off + 32),
            flags: OfferFlags::read_at(bytes, off + 48),
            mmio_megabytes: u16::read_at(bytes, off + 50),
            user_defined: UserDefinedData::read_at(bytes, off + 52),
            subchannel_index: u16::read_at(bytes, off + 172),
            mmio_megabytes_optional: u16::read_at(bytes, off + 174),
            channel_id: ChannelId::read_at(bytes, off + 176),
            monitor_id: u8::read_at(bytes, off + 180),
            monitor_allocated: u8::read_at(bytes, off + 181),
            is_dedicated: u16::read_at(bytes, off + 182),
            connection_id: u32::read_at(bytes, off + 184),
        };
        proof {
            r.lemma_wire_len();
            r.interface_id.lemma_wire_len();
            r.instance_id.lemma_wire_len();
            r.rsvd.lemma_wire_len();
            r.flags.lemma_wire_len();
            r.mmio_megabytes.lemma_wire_len();
            r.user_defined.lemma_wire_len();
            r.subchannel_index.lemma_wire_len();
            r.mmio_megabytes_optional.lemma_wire_len();
            r.channel_id.lemma_wire_len();
            r.monitor_id.lemma_wire_len();
            r.monitor_allocated.lemma_wire_len();
            r.is_dedicated.lemma_wire_len();
            r.connection_id.lemma_wire_len();
            assert(r.wire() =~= bytes@.subrange(off as int, off + 188));
        }
        r
    }
}

impl VmbusMessage for OfferChannel {
    const MESSAGE_TYPE: u32 = MessageType::OFFER_CHANNEL;

    const MESSAGE_SIZE: usize = 196;

    open spec fn type_word() -> u32 {
        MessageType::OFFER_CHANNEL
    }

    proof fn lemma_message() {
    }
}

/// Host to guest: a channel goes away.
#[derive(Copy, Clone, Debug, PartialEq, Eq)]
pub struct RescindChannelOffer {
    pub channel_id: ChannelId,
}

impl Wire for RescindChannelOffer {
    open spec fn wire(&self) -> Seq<u8> {
        self.channel_id.wire()
    }

    open spec fn wire_len() -> nat {
        4
    }

    proof fn lemma_wire_len(&self) {
        self.channel_id.lemma_wire_len();
    }

    proof fn lemma_injective(&self, other: &Self) {
        self.channel_id.lemma_injective(&other.channel_id);
    }

    fn wire_size() -> (n: usize) {
        4
    }

    fn write_to(&self, out: &mut Vec<u8>) {
        self.channel_id.write_to(out);
    }

    fn read_at(bytes: &[u8], off: usize) -> (r: Self) {
        let r = RescindChannelOffer {
            channel_id: ChannelId::read_at(bytes, off),
        };
        r
    }
}

impl VmbusMessage for RescindChannelOffer {
    const MESSAGE_TYPE: u32 = MessageType::RESCIND_CHANNEL_OFFER;

    const MESSAGE_SIZE: usize = 12;

    open spec fn type_word() -> u32 {
        MessageType::RESCIND_CHANNEL_OFFER
    }

    proof fn lemma_message() {
    }
}

// ---------------------------------------------------------------------------
// GPADL
// ---------------------------------------------------------------------------
/// Guest to host: begins a GPADL. Followed by range payload.
#[derive(Copy, Clone, Debug, PartialEq, Eq)]
pub struct GpadlHeader {
    pub channel_id: ChannelId,
    pub gpadl_id: GpadlId,
    /// Length of the whole range payload in bytes.
    pub len: u16,
    /// Number of ranges.
    pub count: u16,
}

impl Wire for GpadlHeader {
    open spec fn wire(&self) -> Seq<u8> {
        self.channel_id.wire() + self.gpadl_id.wire() + self.len.wire() + self.count.wire()
    }

    open spec fn wire_len() -> nat {
        12
    }

    proof fn lemma_wire_len(&self) {
        self.channel_id.lemma_wire_len();
        self.gpadl_id.lemma_wire_len();
        self.len.lemma_wire_len();
        self.count.lemma_wire_len();
    }

    proof fn lemma_injective(&self, other: &Self) {
        self.channel_id.lemma_wire_len();
        other.channel_id.lemma_wire_len();
        self.gpadl_id.lemma_wire_len();
        other.gpadl_id.lemma_wire_len();
        self.len.lemma_wire_len();
        other.len.lemma_wire_len();
        self.count.lemma_wire_len();
        other.count.lemma_wire_len();
        let b = self.wire();
        assert(self.channel_id.wire() =~= b.subrange(0, 4));
        assert(other.channel_id.wire() =~= b.subrange(0, 4));
        self.channel_id.lemma_injective(&other.channel_id);
        assert(self.gpadl_id.wire() =~= b.subrange(4, 8));
        assert(other.gpadl_id.wire() =~= b.subrange(4, 8));
        self.gpadl_id.lemma_injective(&other.gpadl_id);
        assert(self.len.wire() =~= b.subrange(8, 10));
        assert(other.len.wire() =~= b.subrange(8, 10));
        self.len.lemma_injective(&other.len);
        assert(self.count.wire() =~= b.subrange(10, 12));
        assert(other.count.wire() =~= b.subrange(10, 12));
        self.count.lemma_injective(&other.count);
    }

    fn wire_size() -> (n: usize) {
        12
    }

    fn write_to(&self, out: &mut Vec<u8>) {
        self.channel_id.write_to(out);
        self.gpadl_id.write_to(out);
        self.len.write_to(out);
        self.count.write_to(out);
        proof {
            assert(out@ =~= old(out)@ + self.wire());
        }
    }

    fn read_at(bytes: &[u8], off: usize) -> (r: Self) {
        proof {
            wire::lemma_slice_len(bytes);
        }
        let r = GpadlHeader {
            channel_id: ChannelId::read_at(bytes, off),
            gpadl_id: GpadlId::read_at(bytes, off + 4),
            len: u16::read_at(bytes, off + 8),
            count: u16::read_at(bytes, off + 10),
        };
        proof {
            r.lemma_wire_len();
            r.channel_id.lemma_wire_len();
            r.gpadl_id.lemma_wire_len();
            r.len.lemma_wire_len();
            r.count.lemma_wire_len();
            assert(r.wire() =~= bytes@.subrange(off as int, off + 12));
        }
        r
    }
}

impl VmbusMessage for GpadlHeader {
    const MESSAGE_TYPE: u32 = MessageType::GPADL_HEADER;

    const MESSAGE_SIZE: usize = 20;

    open spec fn type_word() -> u32 {
        MessageType::GPADL_HEADER
    }

    proof fn lemma_message() {
    }
}

impl GpadlHeader {
    /// Number of 64-bit PFN values that fit after this header inside a
    /// single vmbus message.
    pub const MAX_DATA_VALUES: usize = (MAX_MESSAGE_SIZE - HEADER_SIZE - 12) / 8;
}

/// Guest to host: continues a GPADL. Followed by range payload.
#[derive(Copy, Clone, Debug, PartialEq, Eq)]
pub struct GpadlBody {
    pub rsvd: u32,
    pub gpadl_id: GpadlId,
}

impl Wire for GpadlBody {
    open spec fn wire(&self) -> Seq<u8> {
        self.rsvd.wire() + self.gpadl_id.wire()
    }

    open spec fn wire_len() -> nat {
        8
    }

    proof fn lemma_wire_len(&self) {
        self.rsvd.lemma_wire_len();
        self.gpadl_id.lemma_wire_len();
    }

    proof fn lemma_injective(&self, other: &Self) {
        self.rsvd.lemma_wire_len();
        other.rsvd.lemma_wire_len();
        self.gpadl_id.lemma_wire_len();
        other.gpadl_id.lemma_wire_len();
        let b = self.wire();
        assert(self.rsvd.wire() =~= b.subrange(0, 4));
        assert(other.rsvd.wire() =~= b.subrange(0, 4));
        self.rsvd.lemma_injective(&other.rsvd);
        assert(self.gpadl_id.wire() =~= b.subrange(4, 8));
        assert(other.gpadl_id.wire() =~= b.subrange(4, 8));
        self.gpadl_id.lemma_injective(&other.gpadl_id);
    }

    fn wire_size() -> (n: usize) {
        8
    }

    fn write_to(&self, out: &mut Vec<u8>) {
        self.rsvd.write_to(out);
        self.gpadl_id.write_to(out);
        proof {
            assert(out@ =~= old(out)@ + self.wire());
        }
    }

    fn read_at(bytes: &[u8], off: usize) -> (r: Self) {
        proof {
            wire::lemma_slice_len(bytes);
        }
        let r = GpadlBody {
            rsvd: u32::read_at(bytes, off),
            gpadl_id: GpadlId::read_at(bytes, off + 4),
        };
        proof {
            r.lemma_wire_len();
            r.rsvd.lemma_wire_len();
            r.gpadl_id.lemma_wire_len();
            assert(r.wire() =~= bytes@.subrange(off as int, off + 8));
        }
        r
    }
}

impl VmbusMessage for GpadlBody {
    const MESSAGE_TYPE: u32 = MessageType::GPADL_BODY;

    const MESSAGE_SIZE: usize = 16;

    open spec fn type_word() -> u32 {
        MessageType::GPADL_BODY
    }

    proof fn lemma_message() {
    }
}

impl GpadlBody {
    /// Number of 64-bit PFN values that fit after this header inside a
    /// single vmbus message.
    pub const MAX_DATA_VALUES: usize = (MAX_MESSAGE_SIZE - HEADER_SIZE - 8) / 8;
}

/// Host to guest: a GPADL has been registered.
#[derive(Copy, Clone, Debug, PartialEq, Eq)]
pub struct GpadlCreated {
    pub channel_id: ChannelId,
    pub gpadl_id: GpadlId,
    pub status: i32,
}

impl Wire for GpadlCreated {
    open spec fn wire(&self) -> Seq<u8> {
        self.channel_id.wire() + self.gpadl_id.wire() + self.status.wire()
    }

    open spec fn wire_len() -> nat {
        12
    }

    proof fn lemma_wire_len(&self) {
        self.channel_id.lemma_wire_len();
        self.gpadl_id.lemma_wire_len();
        self.status.lemma_wire_len();
    }

    proof fn lemma_injective(&self, other: &Self) {
        self.channel_id.lemma_wire_len();
        other.channel_id.lemma_wire_len();
        self.gpadl_id.lemma_wire_len();
        other.gpadl_id.lemma_wire_len();
        self.status.lemma_wire_len();
        other.status.lemma_wire_len();
        let b = self.wire();
        assert(self.channel_id.wire() =~= b.subrange(0, 4));
        assert(other.channel_id.wire() =~= b.subrange(0, 4));
        self.channel_id.lemma_injective(&other.channel_id);
        assert(self.gpadl_id.wire() =~= b.subrange(4, 8));
        assert(other.gpadl_id.wire() =~= b.subrange(4, 8));
        self.gpadl_id.lemma_injective(&other.gpadl_id);
        assert(self.status.wire() =~= b.subrange(8, 12));
        assert(other.status.wire() =~= b.subrange(8, 12));
        self.status.lemma_injective(&other.status);
    }

    fn wire_size() -> (n: usize) {
        12
    }

    fn write_to(&self, out: &mut Vec<u8>) {
        self.channel_id.write_to(out);
        self.gpadl_id.write_to(out);
        self.status.write_to(out);
        proof {
            assert(out@ =~= old(out)@ + self.wire());
        }
    }

    fn read_at(bytes: &[u8], off: usize) -> (r: Self) {
        proof {
            wire::lemma_slice_len(bytes);
        }
        let r = GpadlCreated {
            channel_id: ChannelId::read_at(bytes, off),
            gpadl_id: GpadlId::read_at(bytes, off + 4),
            status: i32::read_at(bytes, off + 8),
        };
        proof {
            r.lemma_wire_len();
            r.channel_id.lemma_wire_len();
            r.gpadl_id.lemma_wire_len();
            r.status.lemma_wire_len();
            assert(r.wire() =~= bytes@.subrange(off as int, off + 12));
        }
        r
    }
}

impl VmbusMessage for GpadlCreated {
    const MESSAGE_TYPE: u32 = MessageType::GPADL_CREATED;

    const MESSAGE_SIZE: usize = 20;

    open spec fn type_word() -> u32 {
        MessageType::GPADL_CREATED
    }

    proof fn lemma_message() {
    }
}

/// Guest to host: give a GPADL up.
#[derive(Copy, Clone, Debug, PartialEq, Eq)]
pub struct GpadlTeardown {
    pub channel_id: ChannelId,
    pub gpadl_id: GpadlId,
}

impl Wire for GpadlTeardown {
    open spec fn wire(&self) -> Seq<u8> {
        self.channel_id.wire() + self.gpadl_id.wire()
    }

    open spec fn wire_len() -> nat {
        8
    }

    proof fn lemma_wire_len(&self) {
        self.channel_id.lemma_wire_len();
        self.gpadl_id.lemma_wire_len();
    }

    proof fn lemma_injective(&self, other: &Self) {
        self.channel_id.lemma_wire_len();
        other.channel_id.lemma_wire_len();
        self.gpadl_id.lemma_wire_len();
        other.gpadl_id.lemma_wire_len();
        let b = self.wire();
        assert(self.channel_id.wire() =~= b.subrange(0, 4));
        assert(other.channel_id.wire() =~= b.subrange(0, 4));
        self.channel_id.lemma_injective(&other.channel_id);
        assert(self.gpadl_id.wire() =~= b.subrange(4, 8));
        assert(other.gpadl_id.wire() =~= b.subrange(4, 8));
        self.gpadl_id.lemma_injective(&other.gpadl_id);
    }

    fn wire_size() -> (n: usize) {
        8
    }

    fn write_to(&self, out: &mut Vec<u8>) {
        self.channel_id.write_to(out);
        self.gpadl_id.write_to(out);
        proof {
            assert(out@ =~= old(out)@ + self.wire());
        }
    }

    fn read_at(bytes: &[u8], off: usize) -> (r: Self) {
        proof {
            wire::lemma_slice_len(bytes);
        }
        let r = GpadlTeardown {
            channel_id: ChannelId::read_at(bytes, off),
            gpadl_id: GpadlId::read_at(bytes, off + 4),
        };
        proof {
            r.lemma_wire_len();
            r.channel_id.lemma_wire_len();
            r.gpadl_id.lemma_wire_len();
            assert(r.wire() =~= bytes@.subrange(off as int, off + 8));
        }
        r
    }
}

impl VmbusMessage for GpadlTeardown {
    const MESSAGE_TYPE: u32 = MessageType::GPADL_TEARDOWN;

    const MESSAGE_SIZE: usize = 16;

    open spec fn type_word() -> u32 {
        MessageType::GPADL_TEARDOWN
    }

    proof fn lemma_message() {
    }
}

/// Host to guest: a GPADL is gone.
#[derive(Copy, Clone, Debug, PartialEq, Eq)]
pub struct GpadlTorndown {
    pub gpadl_id: GpadlId,
}

impl Wire for GpadlTorndown {
    open spec fn wire(&self) -> Seq<u8> {
        self.gpadl_id.wire()
    }

    open spec fn wire_len() -> nat {
        4
    }

    proof fn lemma_wire_len(&self) {
        self.gpadl_id.lemma_wire_len();
    }

    proof fn lemma_injective(&self, other: &Self) {
        self.gpadl_id.lemma_injective(&other.gpadl_id);
    }

    fn wire_size() -> (n: usize) {
        4
    }

    fn write_to(&self, out: &mut Vec<u8>) {
        self.gpadl_id.write_to(out);
    }

    fn read_at(bytes: &[u8], off: usize) -> (r: Self) {
        let r = GpadlTorndown {
            gpadl_id: GpadlId::read_at(bytes, off),
        };
        r
    }
}

impl VmbusMessage for GpadlTorndown {
    const MESSAGE_TYPE: u32 = MessageType::GPADL_TORNDOWN;

    const MESSAGE_SIZE: usize = 12;

    open spec fn type_word() -> u32 {
        MessageType::GPADL_TORNDOWN
    }

    proof fn lemma_message() {
    }
}

// ---------------------------------------------------------------------------
// OpenChannel / CloseChannel / RelIdReleased
// ---------------------------------------------------------------------------
/// Target-VP sentinel that disables per-channel interrupts.
pub const VP_INDEX_DISABLE_INTERRUPT: u32 = 0xffff_ffff;

/// Guest to host: open a channel.
#[derive(Copy, Clone, Debug, PartialEq, Eq)]
pub struct OpenChannel {
    pub channel_id: ChannelId,
    pub open_id: u32,
    pub ring_buffer_gpadl_id: GpadlId,
    pub target_vp: u32,
    pub downstream_ring_buffer_page_offset: u32,
    pub user_data: UserDefinedData,
}

impl Wire for OpenChannel {
    open spec fn wire(&self) -> Seq<u8> {
        self.channel_id.wire()
            + self.open_id.wire()
            + self.ring_buffer_gpadl_id.wire()
            + self.target_vp.wire()
            + self.downstream_ring_buffer_page_offset.wire()
            + self.user_data.wire()
    }

    open spec fn wire_len() -> nat {
        140
    }

    proof fn lemma_wire_len(&self) {
        self.channel_id.lemma_wire_len();
        self.open_id.lemma_wire_len();
        self.ring_buffer_gpadl_id.lemma_wire_len();
        self.target_vp.lemma_wire_len();
        self.downstream_ring_buffer_page_offset.lemma_wire_len();
        self.user_data.lemma_wire_len();
    }

    proof fn lemma_injective(&self, other: &Self) {
        self.channel_id.lemma_wire_len();
        other.channel_id.lemma_wire_len();
        self.open_id.lemma_wire_len();
        other.open_id.lemma_wire_len();
        self.ring_buffer_gpadl_id.lemma_wire_len();
        other.ring_buffer_gpadl_id.lemma_wire_len();
        self.target_vp.lemma_wire_len();
        other.target_vp.lemma_wire_len();
        self.downstream_ring_buffer_page_offset.lemma_wire_len();
        other.downstream_ring_buffer_page_offset.lemma_wire_len();
        self.user_data.lemma_wire_len();
        other.user_data.lemma_wire_len();
        let b = self.wire();
        assert(self.channel_id.wire() =~= b.subrange(0, 4));
        assert(other.channel_id.wire() =~= b.subrange(0, 4));
        self.channel_id.lemma_injective(&other.channel_id);
        assert(self.open_id.wire() =~= b.subrange(4, 8));
        assert(other.open_id.wire() =~= b.subrange(4, 8));
        self.open_id.lemma_injective(&other.open_id);
        assert(self.ring_buffer_gpadl_id.wire() =~= b.subrange(8, 12));
        assert(other.ring_buffer_gpadl_id.wire() =~= b.subrange(8, 12));
        self.ring_buffer_gpadl_id.lemma_injective(&other.ring_buffer_gpadl_id);
        assert(self.target_vp.wire() =~= b.subrange(12, 16));
        assert(other.target_vp.wire() =~= b.subrange(12, 16));
        self.target_vp.lemma_injective(&other.target_vp);
        assert(self.downstream_ring_buffer_page_offset.wire() =~= b.subrange(16, 20));
        assert(other.downstream_ring_buffer_page_offset.wire() =~= b.subrange(16, 20));
        self.downstream_ring_buffer_page_offset.lemma_injective(&other.downstream_ring_buffer_page_offset);
        assert(self.user_data.wire() =~= b.subrange(20, 140));
        assert(other.user_data.wire() =~= b.subrange(20, 140));
        self.user_data.lemma_injective(&other.user_data);
    }

    fn wire_size() -> (n: usize) {
        140
    }

    fn write_to(&self, out: &mut Vec<u8>) {
        self.channel_id.write_to(out);
        self.open_id.write_to(out);
        self.ring_buffer_gpadl_id.write_to(out);
        self.target_vp.write_to(out);
        self.downstream_ring_buffer_page_offset.write_to(out);
        self.user_data.write_to(out);
        proof {
            assert(out@ =~= old(out)@ + self.wire());
        }
    }

    fn read_at(bytes: &[u8], off: usize) -> (r: Self) {
        proof {
            wire::lemma_slice_len(bytes);
        }
        let r = OpenChannel {
            channel_id: ChannelId::read_at(bytes, off),
            open_id: u32::read_at(bytes, off + 4),
            ring_buffer_gpadl_id: GpadlId::read_at(bytes, off + 8),
            target_vp: u32::read_at(bytes, off + 12),
            downstream_ring_buffer_page_offset: u32::read_at(bytes, off + 16),
            user_data: UserDefinedData::read_at(bytes, off + 20),
        };
        proof {
            r.lemma_wire_len();
            r.channel_id.lemma_wire_len();
            r.open_id.lemma_wire_len();
            r.ring_buffer_gpadl_id.lemma_wire_len();
            r.target_vp.lemma_wire_len();
            r.downstream_ring_buffer_page_offset.lemma_wire_len();
            r.user_data.lemma_wire_len();
            assert(r.wire() =~= bytes@.subrange(off as int, off + 140));
        }
        r
    }
}

impl VmbusMessage for OpenChannel {
    const MESSAGE_TYPE: u32 = MessageType::OPEN_CHANNEL;

    const MESSAGE_SIZE: usize = 148;

    open spec fn type_word() -> u32 {
        MessageType::OPEN_CHANNEL
    }

    proof fn lemma_message() {
    }
}

/// Options of an [`OpenChannel2`].
#[derive(Copy, Clone, Debug, PartialEq, Eq, Structural)]
pub struct OpenChannelFlags(pub u16);

impl Wire for OpenChannelFlags {
    open spec fn wire(&self) -> Seq<u8> {
        self.0.wire()
    }

    open spec fn wire_len() -> nat {
        2
    }

    proof fn lemma_wire_len(&self) {
        self.0.lemma_wire_len();
    }

    proof fn lemma_injective(&self, other: &Self) {
        self.0.lemma_injective(&other.0);
    }

    fn wire_size() -> (n: usize) {
        2
    }

    fn write_to(&self, out: &mut Vec<u8>) {
        self.0.write_to(out);
    }

    fn read_at(bytes: &[u8], off: usize) -> (r: Self) {
        let r = OpenChannelFlags(u16::read_at(bytes, off));
        r
    }
}

impl OpenChannelFlags {
    /// No flag set.
    pub fn new() -> (r: Self)
        ensures
            r.0 == 0,
    {
        OpenChannelFlags(0)
    }

    /// The flags in `bits`.
    pub fn from_bits(bits: u16) -> (r: Self)
        ensures
            r.0 == bits,
    {
        OpenChannelFlags(bits)
    }

    /// The flags as an integer.
    pub fn into_bits(self) -> (r: u16)
        ensures
            r == self.0,
    {
        self.0
    }

    /// Deliver the channel's interrupts to the paravisor.
    pub fn redirect_interrupt(&self) -> (r: bool)
        ensures
            r == (self.0 & 0x1 != 0),
    {
        self.0 & 0x1 != 0
    }

    /// Set or clear [`Self::redirect_interrupt`].
    pub fn with_redirect_interrupt(self, v: bool) -> (r: Self)
        ensures
            r.0 == with_bits16(self.0, 0x1, v),
    {
        if v {
            OpenChannelFlags(self.0 | 0x1)
        } else {
            OpenChannelFlags(self.0 & !0x1u16)
        }
    }
}

/// [`OpenChannel`] with guest-chosen signal parameters.
#[derive(Copy, Clone, Debug, PartialEq, Eq)]
pub struct OpenChannel2 {
    pub open_channel: OpenChannel,
    pub connection_id: u32,
    pub event_flag: u16,
    pub flags: OpenChannelFlags,
}

impl Wire for OpenChannel2 {
    open spec fn wire(&self) -> Seq<u8> {
        self.open_channel.wire()
            + self.connection_id.wire()
            + self.event_flag.wire()
            + self.flags.wire()
    }

    open spec fn wire_len() -> nat {
        148
    }

    proof fn lemma_wire_len(&self) {
        self.open_channel.lemma_wire_len();
        self.connection_id.lemma_wire_len();
        self.event_flag.lemma_wire_len();
        self.flags.lemma_wire_len();
    }

    proof fn lemma_injective(&self, other: &Self) {
        self.open_channel.lemma_wire_len();
        other.open_channel.lemma_wire_len();
        self.connection_id.lemma_wire_len();
        other.connection_id.lemma_wire_len();
        self.event_flag.lemma_wire_len();
        other.event_flag.lemma_wire_len();
        self.flags.lemma_wire_len();
        other.flags.lemma_wire_len();
        let b = self.wire();
        assert(self.open_channel.wire() =~= b.subrange(0, 140));
        assert(other.open_channel.wire() =~= b.subrange(0, 140));
        self.open_channel.lemma_injective(&other.open_channel);
        assert(self.connection_id.wire() =~= b.subrange(140, 144));
        assert(other.connection_id.wire() =~= b.subrange(140, 144));
        self.connection_id.lemma_injective(&other.connection_id);
        assert(self.event_flag.wire() =~= b.subrange(144, 146));
        assert(other.event_flag.wire() =~= b.subrange(144, 146));
        self.event_flag.lemma_injective(&other.event_flag);
        assert(self.flags.wire() =~= b.subrange(146, 148));
        assert(other.flags.wire() =~= b.subrange(146, 148));
        self.flags.lemma_injective(&other.flags);
    }

    fn wire_size() -> (n: usize) {
        148
    }

    fn write_to(&self, out: &mut Vec<u8>) {
        self.open_channel.write_to(out);
        self.connection_id.write_to(out);
        self.event_flag.write_to(out);
        self.flags.write_to(out);
        proof {
            assert(out@ =~= old(out)@ + self.wire());
        }
    }

    fn read_at(bytes: &[u8], off: usize) -> (r: Self) {
        proof {
            wire::lemma_slice_len(bytes);
        }
        let r = OpenChannel2 {
            open_channel: OpenChannel::read_at(bytes, off),
            connection_id: u32::read_at(bytes, off + 140),
            event_flag: u16::read_at(bytes, off + 144),
            flags: OpenChannelFlags::read_at(bytes, off + 146),
        };
        proof {
            r.lemma_wire_len();
            r.open_channel.lemma_wire_len();
            r.connection_id.lemma_wire_len();
            r.event_flag.lemma_wire_len();
            r.flags.lemma_wire_len();
            assert(r.wire() =~= bytes@.subrange(off as int, off + 148));
        }
        r
    }
}

impl VmbusMessage for OpenChannel2 {
    const MESSAGE_TYPE: u32 = MessageType::OPEN_CHANNEL;

    const MESSAGE_SIZE: usize = 156;

    open spec fn type_word() -> u32 {
        MessageType::OPEN_CHANNEL
    }

    proof fn lemma_message() {
    }
}

impl From<OpenChannel> for OpenChannel2 {
    fn from(value: OpenChannel) -> (r: Self) {
        OpenChannel2 {
            open_channel: value,
            connection_id: 0,
            event_flag: 0,
            flags: OpenChannelFlags::new(),
        }
    }
}

impl vstd::std_specs::convert::FromSpecImpl<OpenChannel> for OpenChannel2 {
    open spec fn obeys_from_spec() -> bool {
        true
    }

    open spec fn from_spec(v: OpenChannel) -> Self {
        OpenChannel2 {
            open_channel: v,
            connection_id: 0,
            event_flag: 0,
            flags: OpenChannelFlags(0),
        }
    }
}

/// Host to guest: answer to [`OpenChannel`].
#[derive(Copy, Clone, Debug, PartialEq, Eq)]
pub struct OpenResult {
    pub channel_id: ChannelId,
    pub open_id: u32,
    pub status: u32,
}

impl Wire for OpenResult {
    open spec fn wire(&self) -> Seq<u8> {
        self.channel_id.wire() + self.open_id.wire() + self.status.wire()
    }

    open spec fn wire_len() -> nat {
        12
    }

    proof fn lemma_wire_len(&self) {
        self.channel_id.lemma_wire_len();
        self.open_id.lemma_wire_len();
        self.status.lemma_wire_len();
    }

    proof fn lemma_injective(&self, other: &Self) {
        self.channel_id.lemma_wire_len();
        other.channel_id.lemma_wire_len();
        self.open_id.lemma_wire_len();
        other.open_id.lemma_wire_len();
        self.status.lemma_wire_len();
        other.status.lemma_wire_len();
        let b = self.wire();
        assert(self.channel_id.wire() =~= b.subrange(0, 4));
        assert(other.channel_id.wire() =~= b.subrange(0, 4));
        self.channel_id.lemma_injective(&other.channel_id);
        assert(self.open_id.wire() =~= b.subrange(4, 8));
        assert(other.open_id.wire() =~= b.subrange(4, 8));
        self.open_id.lemma_injective(&other.open_id);
        assert(self.status.wire() =~= b.subrange(8, 12));
        assert(other.status.wire() =~= b.subrange(8, 12));
        self.status.lemma_injective(&other.status);
    }

    fn wire_size() -> (n: usize) {
        12
    }

    fn write_to(&self, out: &mut Vec<u8>) {
        self.channel_id.write_to(out);
        self.open_id.write_to(out);
        self.status.write_to(out);
        proof {
            assert(out@ =~= old(out)@ + self.wire());
        }
    }

    fn read_at(bytes: &[u8], off: usize) -> (r: Self) {
        proof {
            wire::lemma_slice_len(bytes);
        }
        let r = OpenResult {
            channel_id: ChannelId::read_at(bytes, off),
            open_id: u32::read_at(bytes, off + 4),
            status: u32::read_at(bytes, off + 8),
        };
        proof {
            r.lemma_wire_len();
            r.channel_id.lemma_wire_len();
            r.open_id.lemma_wire_len();
            r.status.lemma_wire_len();
            assert(r.wire() =~= bytes@.subrange(off as int, off + 12));
        }
        r
    }
}

impl VmbusMessage for OpenResult {
    const MESSAGE_TYPE: u32 = MessageType::OPEN_CHANNEL_RESULT;

    const MESSAGE_SIZE: usize = 20;

    open spec fn type_word() -> u32 {
        MessageType::OPEN_CHANNEL_RESULT
    }

    proof fn lemma_message() {
    }
}

/// Guest to host: close a channel.
#[derive(Copy, Clone, Debug, PartialEq, Eq)]
pub struct CloseChannel {
    pub channel_id: ChannelId,
}

impl Wire for CloseChannel {
    open spec fn wire(&self) -> Seq<u8> {
        self.channel_id.wire()
    }

    open spec fn wire_len() -> nat {
        4
    }

    proof fn lemma_wire_len(&self) {
        self.channel_id.lemma_wire_len();
    }

    proof fn lemma_injective(&self, other: &Self) {
        self.channel_id.lemma_injective(&other.channel_id);
    }

    fn wire_size() -> (n: usize) {
        4
    }

    fn write_to(&self, out: &mut Vec<u8>) {
        self.channel_id.write_to(out);
    }

    fn read_at(bytes: &[u8], off: usize) -> (r: Self) {
        let r = CloseChannel {
            channel_id: ChannelId::read_at(bytes, off),
        };
        r
    }
}

impl VmbusMessage for CloseChannel {
    const MESSAGE_TYPE: u32 = MessageType::CLOSE_CHANNEL;

    const MESSAGE_SIZE: usize = 12;

    open spec fn type_word() -> u32 {
        MessageType::CLOSE_CHANNEL
    }

    proof fn lemma_message() {
    }
}

/// Guest to host: the channel id can be reused.
#[derive(Copy, Clone, Debug, PartialEq, Eq)]
pub struct RelIdReleased {
    pub channel_id: ChannelId,
}

impl Wire for RelIdReleased {
    open spec fn wire(&self) -> Seq<u8> {
        self.channel_id.wire()
    }

    open spec fn wire_len() -> nat {
        4
    }

    proof fn lemma_wire_len(&self) {
        self.channel_id.lemma_wire_len();
    }

    proof fn lemma_injective(&self, other: &Self) {
        self.channel_id.lemma_injective(&other.channel_id);
    }

    fn wire_size() -> (n: usize) {
        4
    }

    fn write_to(&self, out: &mut Vec<u8>) {
        self.channel_id.write_to(out);
    }

    fn read_at(bytes: &[u8], off: usize) -> (r: Self) {
        let r = RelIdReleased {
            channel_id: ChannelId::read_at(bytes, off),
        };
        r
    }
}

impl VmbusMessage for RelIdReleased {
    const MESSAGE_TYPE: u32 = MessageType::REL_ID_RELEASED;

    const MESSAGE_SIZE: usize = 12;

    open spec fn type_word() -> u32 {
        MessageType::REL_ID_RELEASED
    }

    proof fn lemma_message() {
    }
}

// ---------------------------------------------------------------------------
// Reserved channel / modify
// ---------------------------------------------------------------------------
/// Guest to host: open a reserved channel.
#[derive(Copy, Clone, Debug, PartialEq, Eq)]
pub struct OpenReservedChannel {
    pub channel_id: ChannelId,
    pub target_vp: u32,
    pub target_sint: u32,
    pub ring_buffer_gpadl: GpadlId,
    pub downstream_page_offset: u32,
}

impl Wire for OpenReservedChannel {
    open spec fn wire(&self) -> Seq<u8> {
        self.channel_id.wire()
            + self.target_vp.wire()
            + self.target_sint.wire()
            + self.ring_buffer_gpadl.wire()
            + self.downstream_page_offset.wire()
    }

    open spec fn wire_len() -> nat {
        20
    }

    proof fn lemma_wire_len(&self) {
        self.channel_id.lemma_wire_len();
        self.target_vp.lemma_wire_len();
        self.target_sint.lemma_wire_len();
        self.ring_buffer_gpadl.lemma_wire_len();
        self.downstream_page_offset.lemma_wire_len();
    }

    proof fn lemma_injective(&self, other: &Self) {
        self.channel_id.lemma_wire_len();
        other.channel_id.lemma_wire_len();
        self.target_vp.lemma_wire_len();
        other.target_vp.lemma_wire_len();
        self.target_sint.lemma_wire_len();
        other.target_sint.lemma_wire_len();
        self.ring_buffer_gpadl.lemma_wire_len();
        other.ring_buffer_gpadl.lemma_wire_len();
        self.downstream_page_offset.lemma_wire_len();
        other.downstream_page_offset.lemma_wire_len();
        let b = self.wire();
        assert(self.channel_id.wire() =~= b.subrange(0, 4));
        assert(other.channel_id.wire() =~= b.subrange(0, 4));
        self.channel_id.lemma_injective(&other.channel_id);
        assert(self.target_vp.wire() =~= b.subrange(4, 8));
        assert(other.target_vp.wire() =~= b.subrange(4, 8));
        self.target_vp.lemma_injective(&other.target_vp);
        assert(self.target_sint.wire() =~= b.subrange(8, 12));
        assert(other.target_sint.wire() =~= b.subrange(8, 12));
        self.target_sint.lemma_injective(&other.target_sint);
        assert(self.ring_buffer_gpadl.wire() =~= b.subrange(12, 16));
        assert(other.ring_buffer_gpadl.wire() =~= b.subrange(12, 16));
        self.ring_buffer_gpadl.lemma_injective(&other.ring_buffer_gpadl);
        assert(self.downstream_page_offset.wire() =~= b.subrange(16, 20));
        assert(other.downstream_page_offset.wire() =~= b.subrange(16, 20));
        self.downstream_page_offset.lemma_injective(&other.downstream_page_offset);
    }

    fn wire_size() -> (n: usize) {
        20
    }

    fn write_to(&self, out: &mut Vec<u8>) {
        self.channel_id.write_to(out);
        self.target_vp.write_to(out);
        self.target_sint.write_to(out);
        self.ring_buffer_gpadl.write_to(out);
        self.downstream_page_offset.write_to(out);
        proof {
            assert(out@ =~= old(out)@ + self.wire());
        }
    }

    fn read_at(bytes: &[u8], off: usize) -> (r: Self) {
        proof {
            wire::lemma_slice_len(bytes);
        }
        let r = OpenReservedChannel {
            channel_id: ChannelId::read_at(bytes, off),
            target_vp: u32::read_at(bytes, off + 4),
            target_sint: u32::read_at(bytes, off + 8),
            ring_buffer_gpadl: GpadlId::read_at(bytes, off + 12),
            downstream_page_offset: u32::read_at(bytes, off + 16),
        };
        proof {
            r.lemma_wire_len();
            r.channel_id.lemma_wire_len();
            r.target_vp.lemma_wire_len();
            r.target_sint.lemma_wire_len();
            r.ring_buffer_gpadl.lemma_wire_len();
            r.downstream_page_offset.lemma_wire_len();
            assert(r.wire() =~= bytes@.subrange(off as int, off + 20));
        }
        r
    }
}

/// Guest to host: close a reserved channel.
#[derive(Copy, Clone, Debug, PartialEq, Eq)]
pub struct CloseReservedChannel {
    pub channel_id: ChannelId,
    pub target_vp: u32,
    pub target_sint: u32,
}

impl Wire for CloseReservedChannel {
    open spec fn wire(&self) -> Seq<u8> {
        self.channel_id.wire() + self.target_vp.wire() + self.target_sint.wire()
    }

    open spec fn wire_len() -> nat {
        12
    }

    proof fn lemma_wire_len(&self) {
        self.channel_id.lemma_wire_len();
        self.target_vp.lemma_wire_len();
        self.target_sint.lemma_wire_len();
    }

    proof fn lemma_injective(&self, other: &Self) {
        self.channel_id.lemma_wire_len();
        other.channel_id.lemma_wire_len();
        self.target_vp.lemma_wire_len();
        other.target_vp.lemma_wire_len();
        self.target_sint.lemma_wire_len();
        other.target_sint.lemma_wire_len();
        let b = self.wire();
        assert(self.channel_id.wire() =~= b.subrange(0, 4));
        assert(other.channel_id.wire() =~= b.subrange(0, 4));
        self.channel_id.lemma_injective(&other.channel_id);
        assert(self.target_vp.wire() =~= b.subrange(4, 8));
        assert(other.target_vp.wire() =~= b.subrange(4, 8));
        self.target_vp.lemma_injective(&other.target_vp);
        assert(self.target_sint.wire() =~= b.subrange(8, 12));
        assert(other.target_sint.wire() =~= b.subrange(8, 12));
        self.target_sint.lemma_injective(&other.target_sint);
    }

    fn wire_size() -> (n: usize) {
        12
    }

    fn write_to(&self, out: &mut Vec<u8>) {
        self.channel_id.write_to(out);
        self.target_vp.write_to(out);
        self.target_sint.write_to(out);
        proof {
            assert(out@ =~= old(out)@ + self.wire());
        }
    }

    fn read_at(bytes: &[u8], off: usize) -> (r: Self) {
        proof {
            wire::lemma_slice_len(bytes);
        }
        let r = CloseReservedChannel {
            channel_id: ChannelId::read_at(bytes, off),
            target_vp: u32::read_at(bytes, off + 4),
            target_sint: u32::read_at(bytes, off + 8),
        };
        proof {
            r.lemma_wire_len();
            r.channel_id.lemma_wire_len();
            r.target_vp.lemma_wire_len();
            r.target_sint.lemma_wire_len();
            assert(r.wire() =~= bytes@.subrange(off as int, off + 12));
        }
        r
    }
}

/// Host to guest: a reserved channel is closed.
#[derive(Copy, Clone, Debug, PartialEq, Eq)]
pub struct CloseReservedChannelResponse {
    pub channel_id: ChannelId,
}

impl Wire for CloseReservedChannelResponse {
    open spec fn wire(&self) -> Seq<u8> {
        self.channel_id.wire()
    }

    open spec fn wire_len() -> nat {
        4
    }

    proof fn lemma_wire_len(&self) {
        self.channel_id.lemma_wire_len();
    }

    proof fn lemma_injective(&self, other: &Self) {
        self.channel_id.lemma_injective(&other.channel_id);
    }

    fn wire_size() -> (n: usize) {
        4
    }

    fn write_to(&self, out: &mut Vec<u8>) {
        self.channel_id.write_to(out);
    }

    fn read_at(bytes: &[u8], off: usize) -> (r: Self) {
        let r = CloseReservedChannelResponse {
            channel_id: ChannelId::read_at(bytes, off),
        };
        r
    }
}

/// Guest to host: move a channel's interrupts to another VP.
#[derive(Copy, Clone, Debug, PartialEq, Eq)]
pub struct ModifyChannel {
    pub channel_id: ChannelId,
    pub target_vp: u32,
}

impl Wire for ModifyChannel {
    open spec fn wire(&self) -> Seq<u8> {
        self.channel_id.wire() + self.target_vp.wire()
    }

    open spec fn wire_len() -> nat {
        8
    }

    proof fn lemma_wire_len(&self) {
        self.channel_id.lemma_wire_len();
        self.target_vp.lemma_wire_len();
    }

    proof fn lemma_injective(&self, other: &Self) {
        self.channel_id.lemma_wire_len();
        other.channel_id.lemma_wire_len();
        self.target_vp.lemma_wire_len();
        other.target_vp.lemma_wire_len();
        let b = self.wire();
        assert(self.channel_id.wire() =~= b.subrange(0, 4));
        assert(other.channel_id.wire() =~= b.subrange(0, 4));
        self.channel_id.lemma_injective(&other.channel_id);
        assert(self.target_vp.wire() =~= b.subrange(4, 8));
        assert(other.target_vp.wire() =~= b.subrange(4, 8));
        self.target_vp.lemma_injective(&other.target_vp);
    }

    fn wire_size() -> (n: usize) {
        8
    }

    fn write_to(&self, out: &mut Vec<u8>) {
        self.channel_id.write_to(out);
        self.target_vp.write_to(out);
        proof {
            assert(out@ =~= old(out)@ + self.wire());
        }
    }

    fn read_at(bytes: &[u8], off: usize) -> (r: Self) {
        proof {
            wire::lemma_slice_len(bytes);
        }
        let r = ModifyChannel {
            channel_id: ChannelId::read_at(bytes, off),
            target_vp: u32::read_at(bytes, off + 4),
        };
        proof {
            r.lemma_wire_len();
            r.channel_id.lemma_wire_len();
            r.target_vp.lemma_wire_len();
            assert(r.wire() =~= bytes@.subrange(off as int, off + 8));
        }
        r
    }
}

/// Host to guest: answer to [`ModifyChannel`].
#[derive(Copy, Clone, Debug, PartialEq, Eq)]
pub struct ModifyChannelResponse {
    pub channel_id: ChannelId,
    pub status: i32,
}

impl Wire for ModifyChannelResponse {
    open spec fn wire(&self) -> Seq<u8> {
        self.channel_id.wire() + self.status.wire()
    }

    open spec fn wire_len() -> nat {
        8
    }

    proof fn lemma_wire_len(&self) {
        self.channel_id.lemma_wire_len();
        self.status.lemma_wire_len();
    }

    proof fn lemma_injective(&self, other: &Self) {
        self.channel_id.lemma_wire_len();
        other.channel_id.lemma_wire_len();
        self.status.lemma_wire_len();
        other.status.lemma_wire_len();
        let b = self.wire();
        assert(self.channel_id.wire() =~= b.subrange(0, 4));
        assert(other.channel_id.wire() =~= b.subrange(0, 4));
        self.channel_id.lemma_injective(&other.channel_id);
        assert(self.status.wire() =~= b.subrange(4, 8));
        assert(other.status.wire() =~= b.subrange(4, 8));
        self.status.lemma_injective(&other.status);
    }

    fn wire_size() -> (n: usize) {
        8
    }

    fn write_to(&self, out: &mut Vec<u8>) {
        self.channel_id.write_to(out);
        self.status.write_to(out);
        proof {
            assert(out@ =~= old(out)@ + self.wire());
        }
    }

    fn read_at(bytes: &[u8], off: usize) -> (r: Self) {
        proof {
            wire::lemma_slice_len(bytes);
        }
        let r = ModifyChannelResponse {
            channel_id: ChannelId::read_at(bytes, off),
            status: i32::read_at(bytes, off + 4),
        };
        proof {
            r.lemma_wire_len();
            r.channel_id.lemma_wire_len();
            r.status.lemma_wire_len();
            assert(r.wire() =~= bytes@.subrange(off as int, off + 8));
        }
        r
    }
}

impl VmbusMessage for ModifyChannelResponse {
    const MESSAGE_TYPE: u32 = MessageType::MODIFY_CHANNEL_RESPONSE;

    const MESSAGE_SIZE: usize = 16;

    open spec fn type_word() -> u32 {
        MessageType::MODIFY_CHANNEL_RESPONSE
    }

    proof fn lemma_message() {
    }
}

/// Guest to host: replace the monitor pages.
#[derive(Copy, Clone, Debug, PartialEq, Eq)]
pub struct ModifyConnection {
    pub parent_to_child_monitor_page_gpa: u64,
    pub child_to_parent_monitor_page_gpa: u64,
}

impl Wire for ModifyConnection {
    open spec fn wire(&self) -> Seq<u8> {
        self.parent_to_child_monitor_page_gpa.wire()
            + self.child_to_parent_monitor_page_gpa.wire()
    }

    open spec fn wire_len() -> nat {
        16
    }

    proof fn lemma_wire_len(&self) {
        self.parent_to_child_monitor_page_gpa.lemma_wire_len();
        self.child_to_parent_monitor_page_gpa.lemma_wire_len();
    }

    proof fn lemma_injective(&self, other: &Self) {
        self.parent_to_child_monitor_page_gpa.lemma_wire_len();
        other.parent_to_child_monitor_page_gpa.lemma_wire_len();
        self.child_to_parent_monitor_page_gpa.lemma_wire_len();
        other.child_to_parent_monitor_page_gpa.lemma_wire_len();
        let b = self.wire();
        assert(self.parent_to_child_monitor_page_gpa.wire() =~= b.subrange(0, 8));
        assert(other.parent_to_child_monitor_page_gpa.wire() =~= b.subrange(0, 8));
        self.parent_to_child_monitor_page_gpa.lemma_injective(&other.parent_to_child_monitor_page_gpa);
        assert(self.child_to_parent_monitor_page_gpa.wire() =~= b.subrange(8, 16));
        assert(other.child_to_parent_monitor_page_gpa.wire() =~= b.subrange(8, 16));
        self.child_to_parent_monitor_page_gpa.lemma_injective(&other.child_to_parent_monitor_page_gpa);
    }

    fn wire_size() -> (n: usize) {
        16
    }

    fn write_to(&self, out: &mut Vec<u8>) {
        self.parent_to_child_monitor_page_gpa.write_to(out);
        self.child_to_parent_monitor_page_gpa.write_to(out);
        proof {
            assert(out@ =~= old(out)@ + self.wire());
        }
    }

    fn read_at(bytes: &[u8], off: usize) -> (r: Self) {
        proof {
            wire::lemma_slice_len(bytes);
        }
        let r = ModifyConnection {
            parent_to_child_monitor_page_gpa: u64::read_at(bytes, off),
            child_to_parent_monitor_page_gpa: u64::read_at(bytes, off + 8),
        };
        proof {
            r.lemma_wire_len();
            r.parent_to_child_monitor_page_gpa.lemma_wire_len();
            r.child_to_parent_monitor_page_gpa.lemma_wire_len();
            assert(r.wire() =~= bytes@.subrange(off as int, off + 16));
        }
        r
    }
}

/// Host to guest: answer to [`ModifyConnection`].
#[derive(Copy, Clone, Debug, PartialEq, Eq)]
pub struct ModifyConnectionResponse {
    pub connection_state: ConnectionState,
}

impl Wire for ModifyConnectionResponse {
    open spec fn wire(&self) -> Seq<u8> {
        self.connection_state.wire()
    }

    open spec fn wire_len() -> nat {
        1
    }

    proof fn lemma_wire_len(&self) {
        self.connection_state.lemma_wire_len();
    }

    proof fn lemma_injective(&self, other: &Self) {
        self.connection_state.lemma_injective(&other.connection_state);
    }

    fn wire_size() -> (n: usize) {
        1
    }

    fn write_to(&self, out: &mut Vec<u8>) {
        self.connection_state.write_to(out);
    }

    fn read_at(bytes: &[u8], off: usize) -> (r: Self) {
        let r = ModifyConnectionResponse {
            connection_state: ConnectionState::read_at(bytes, off),
        };
        r
    }
}

// ---------------------------------------------------------------------------
// hv-socket
// ---------------------------------------------------------------------------
/// Framing of a pipe. Any value can occur.
#[derive(Copy, Clone, Debug, PartialEq, Eq, Structural)]
pub struct PipeType(pub u32);

impl Wire for PipeType {
    open spec fn wire(&self) -> Seq<u8> {
        self.0.wire()
    }

    open spec fn wire_len() -> nat {
        4
    }

    proof fn lemma_wire_len(&self) {
        self.0.lemma_wire_len();
    }

    proof fn lemma_injective(&self, other: &Self) {
        self.0.lemma_injective(&other.0);
    }

    fn wire_size() -> (n: usize) {
        4
    }

    fn write_to(&self, out: &mut Vec<u8>) {
        self.0.write_to(out);
    }

    fn read_at(bytes: &[u8], off: usize) -> (r: Self) {
        let r = PipeType(u32::read_at(bytes, off));
        r
    }
}

impl PipeType {
    pub const BYTE: u32 = 0;

    pub const MESSAGE: u32 = 4;
}

/// User-defined data of a pipe channel.
#[derive(Copy, Clone, Debug, PartialEq, Eq)]
pub struct PipeUserDefinedParameters {
    pub pipe_type: PipeType,
}

impl Wire for PipeUserDefinedParameters {
    open spec fn wire(&self) -> Seq<u8> {
        self.pipe_type.wire()
    }

    open spec fn wire_len() -> nat {
        4
    }

    proof fn lemma_wire_len(&self) {
        self.pipe_type.lemma_wire_len();
    }

    proof fn lemma_injective(&self, other: &Self) {
        self.pipe_type.lemma_injective(&other.pipe_type);
    }

    fn wire_size() -> (n: usize) {
        4
    }

    fn write_to(&self, out: &mut Vec<u8>) {
        self.pipe_type.write_to(out);
    }

    fn read_at(bytes: &[u8], off: usize) -> (r: Self) {
        let r = PipeUserDefinedParameters {
            pipe_type: PipeType::read_at(bytes, off),
        };
        r
    }
}

/// Revision of the hv-socket parameters. Any value can occur.
#[derive(Copy, Clone, Debug, PartialEq, Eq, Structural)]
pub struct HvsockParametersVersion(pub u32);

impl Wire for HvsockParametersVersion {
    open spec fn wire(&self) -> Seq<u8> {
        self.0.wire()
    }

    open spec fn wire_len() -> nat {
        4
    }

    proof fn lemma_wire_len(&self) {
        self.0.lemma_wire_len();
    }

    proof fn lemma_injective(&self, other: &Self) {
        self.0.lemma_injective(&other.0);
    }

    fn wire_size() -> (n: usize) {
        4
    }

    fn write_to(&self, out: &mut Vec<u8>) {
        self.0.write_to(out);
    }

    fn read_at(bytes: &[u8], off: usize) -> (r: Self) {
        let r = HvsockParametersVersion(u32::read_at(bytes, off));
        r
    }
}

impl HvsockParametersVersion {
    pub const PRE_RS5: u32 = 0;

    pub const RS5: u32 = 1;
}

/// User-defined data of an hv-socket channel.
#[derive(Copy, Clone, Debug, PartialEq, Eq)]
pub struct HvsockUserDefinedParameters {
    pub pipe_params: PipeUserDefinedParameters,
    pub is_for_guest_accept: u8,
    pub is_for_guest_container: u8,
    pub version: HvsockParametersVersion,
    pub silo_id: Guid,
    pub _padding: [u8; 2],
}

impl Wire for HvsockUserDefinedParameters {
    open spec fn wire(&self) -> Seq<u8> {
        self.pipe_params.wire()
            + self.is_for_guest_accept.wire()
            + self.is_for_guest_container.wire()
            + self.version.wire()
            + self.silo_id.wire()
            + self._padding.wire()
    }

    open spec fn wire_len() -> nat {
        28
    }

    proof fn lemma_wire_len(&self) {
        self.pipe_params.lemma_wire_len();
        self.is_for_guest_accept.lemma_wire_len();
        self.is_for_guest_container.lemma_wire_len();
        self.version.lemma_wire_len();
        self.silo_id.lemma_wire_len();
        self._padding.lemma_wire_len();
    }

    proof fn lemma_injective(&self, other: &Self) {
        self.pipe_params.lemma_wire_len();
        other.pipe_params.lemma_wire_len();
        self.is_for_guest_accept.lemma_wire_len();
        other.is_for_guest_accept.lemma_wire_len();
        self.is_for_guest_container.lemma_wire_len();
        other.is_for_guest_container.lemma_wire_len();
        self.version.lemma_wire_len();
        other.version.lemma_wire_len();
        self.silo_id.lemma_wire_len();
        other.silo_id.lemma_wire_len();
        self._padding.lemma_wire_len();
        other._padding.lemma_wire_len();
        let b = self.wire();
        assert(self.pipe_params.wire() =~= b.subrange(0, 4));
        assert(other.pipe_params.wire() =~= b.subrange(0, 4));
        self.pipe_params.lemma_injective(&other.pipe_params);
        assert(self.is_for_guest_accept.wire() =~= b.subrange(4, 5));
        assert(other.is_for_guest_accept.wire() =~= b.subrange(4, 5));
        self.is_for_guest_accept.lemma_injective(&other.is_for_guest_accept);
        assert(self.is_for_guest_container.wire() =~= b.subrange(5, 6));
        assert(other.is_for_guest_container.wire() =~= b.subrange(5, 6));
        self.is_for_guest_container.lemma_injective(&other.is_for_guest_container);
        assert(self.version.wire() =~= b.subrange(6, 10));
        assert(other.version.wire() =~= b.subrange(6, 10));
        self.version.lemma_injective(&other.version);
        assert(self.silo_id.wire() =~= b.subrange(10, 26));
        assert(other.silo_id.wire() =~= b.subrange(10, 26));
        self.silo_id.lemma_injective(&other.silo_id);
        assert(self._padding.wire() =~= b.subrange(26, 28));
        assert(other._padding.wire() =~= b.subrange(26, 28));
        self._padding.lemma_injective(&other._padding);
    }

    fn wire_size() -> (n: usize) {
        28
    }

    fn write_to(&self, out: &mut Vec<u8>) {
        self.pipe_params.write_to(out);
        self.is_for_guest_accept.write_to(out);
        self.is_for_guest_container.write_to(out);
        self.version.write_to(out);
        self.silo_id.write_to(out);
        self._padding.write_to(out);
        proof {
            assert(out@ =~= old(out)@ + self.wire());
        }
    }

    fn read_at(bytes: &[u8], off: usize) -> (r: Self) {
        proof {
            wire::lemma_slice_len(bytes);
        }
        let r = HvsockUserDefinedParameters {
            pipe_params: PipeUserDefinedParameters::read_at(bytes, off),
            is_for_guest_accept: u8::read_at(bytes, off + 4),
            is_for_guest_container: u8::read_at(bytes, off + 5),
            version: HvsockParametersVersion::read_at(bytes, off + 6),
            silo_id: Guid::read_at(bytes, off + 10),
            _padding: <[u8; 2]>::read_at(bytes, off + 26),
        };
        proof {
            r.lemma_wire_len();
            r.pipe_params.lemma_wire_len();
            r.is_for_guest_accept.lemma_wire_len();
            r.is_for_guest_container.lemma_wire_len();
            r.version.lemma_wire_len();
            r.silo_id.lemma_wire_len();
            r._padding.lemma_wire_len();
            assert(r.wire() =~= bytes@.subrange(off as int, off + 28));
        }
        r
    }
}

impl HvsockUserDefinedParameters {
    /// Parameters of a byte-framed hv-socket at the current revision.
    pub fn new(is_for_guest_accept: bool, is_for_guest_container: bool, silo_id: Guid) -> (r: Self)
        ensures
            r.pipe_params.pipe_type.0 == PipeType::BYTE,
            r.is_for_guest_accept == (if is_for_guest_accept {
                1u8
            } else {
                0u8
            }),
            r.is_for_guest_container == (if is_for_guest_container {
                1u8
            } else {
                0u8
            }),
            r.version.0 == HvsockParametersVersion::RS5,
            r.silo_id == silo_id,
            r._padding@ == seq![0u8, 0u8],
    {
        HvsockUserDefinedParameters {
            pipe_params: PipeUserDefinedParameters { pipe_type: PipeType(PipeType::BYTE) },
            is_for_guest_accept: if is_for_guest_accept {
                1
            } else {
                0
            },
            is_for_guest_container: if is_for_guest_container {
                1
            } else {
                0
            },
            version: HvsockParametersVersion(HvsockParametersVersion::RS5),
            silo_id,
            _padding: [0, 0],
        }
    }
}

/// Guest to host: connect an hv-socket.
#[derive(Copy, Clone, Debug, PartialEq, Eq)]
pub struct TlConnectRequest {
    pub endpoint_id: Guid,
    pub service_id: Guid,
}

impl Wire for TlConnectRequest {
    open spec fn wire(&self) -> Seq<u8> {
        self.endpoint_id.wire() + self.service_id.wire()
    }

    open spec fn wire_len() -> nat {
        32
    }

    proof fn lemma_wire_len(&self) {
        self.endpoint_id.lemma_wire_len();
        self.service_id.lemma_wire_len();
    }

    proof fn lemma_injective(&self, other: &Self) {
        self.endpoint_id.lemma_wire_len();
        other.endpoint_id.lemma_wire_len();
        self.service_id.lemma_wire_len();
        other.service_id.lemma_wire_len();
        let b = self.wire();
        assert(self.endpoint_id.wire() =~= b.subrange(0, 16));
        assert(other.endpoint_id.wire() =~= b.subrange(0, 16));
        self.endpoint_id.lemma_injective(&other.endpoint_id);
        assert(self.service_id.wire() =~= b.subrange(16, 32));
        assert(other.service_id.wire() =~= b.subrange(16, 32));
        self.service_id.lemma_injective(&other.service_id);
    }

    fn wire_size() -> (n: usize) {
        32
    }

    fn write_to(&self, out: &mut Vec<u8>) {
        self.endpoint_id.write_to(out);
        self.service_id.write_to(out);
        proof {
            assert(out@ =~= old(out)@ + self.wire());
        }
    }

    fn read_at(bytes: &[u8], off: usize) -> (r: Self) {
        proof {
            wire::lemma_slice_len(bytes);
        }
        let r = TlConnectRequest {
            endpoint_id: Guid::read_at(bytes, off),
            service_id: Guid::read_at(bytes, off + 16),
        };
        proof {
            r.lemma_wire_len();
            r.endpoint_id.lemma_wire_len();
            r.service_id.lemma_wire_len();
            assert(r.wire() =~= bytes@.subrange(off as int, off + 32));
        }
        r
    }
}

impl VmbusMessage for TlConnectRequest {
    const MESSAGE_TYPE: u32 = MessageType::TL_CONNECT_REQUEST;

    const MESSAGE_SIZE: usize = 40;

    open spec fn type_word() -> u32 {
        MessageType::TL_CONNECT_REQUEST
    }

    proof fn lemma_message() {
    }
}

/// [`TlConnectRequest`] with a silo.
#[derive(Copy, Clone, Debug, PartialEq, Eq)]
pub struct TlConnectRequest2 {
    pub base: TlConnectRequest,
    pub silo_id: Guid,
}

impl Wire for TlConnectRequest2 {
    open spec fn wire(&self) -> Seq<u8> {
        self.base.wire() + self.silo_id.wire()
    }

    open spec fn wire_len() -> nat {
        48
    }

    proof fn lemma_wire_len(&self) {
        self.base.lemma_wire_len();
        self.silo_id.lemma_wire_len();
    }

    proof fn lemma_injective(&self, other: &Self) {
        self.base.lemma_wire_len();
        other.base.lemma_wire_len();
        self.silo_id.lemma_wire_len();
        other.silo_id.lemma_wire_len();
        let b = self.wire();
        assert(self.base.wire() =~= b.subrange(0, 32));
        assert(other.base.wire() =~= b.subrange(0, 32));
        self.base.lemma_injective(&other.base);
        assert(self.silo_id.wire() =~= b.subrange(32, 48));
        assert(other.silo_id.wire() =~= b.subrange(32, 48));
        self.silo_id.lemma_injective(&other.silo_id);
    }

    fn wire_size() -> (n: usize) {
        48
    }

    fn write_to(&self, out: &mut Vec<u8>) {
        self.base.write_to(out);
        self.silo_id.write_to(out);
        proof {
            assert(out@ =~= old(out)@ + self.wire());
        }
    }

    fn read_at(bytes: &[u8], off: usize) -> (r: Self) {
        proof {
            wire::lemma_slice_len(bytes);
        }
        let r = TlConnectRequest2 {
            base: TlConnectRequest::read_at(bytes, off),
            silo_id: Guid::read_at(bytes, off + 32),
        };
        proof {
            r.lemma_wire_len();
            r.base.lemma_wire_len();
            r.silo_id.lemma_wire_len();
            assert(r.wire() =~= bytes@.subrange(off as int, off + 48));
        }
        r
    }
}

impl VmbusMessage for TlConnectRequest2 {
    const MESSAGE_TYPE: u32 = MessageType::TL_CONNECT_REQUEST;

    const MESSAGE_SIZE: usize = 56;

    open spec fn type_word() -> u32 {
        MessageType::TL_CONNECT_REQUEST
    }

    proof fn lemma_message() {
    }
}

impl From<TlConnectRequest> for TlConnectRequest2 {
    fn from(value: TlConnectRequest) -> (r: Self) {
        let zero = Guid::new_zeroed();
        proof {
            wire::lemma_decoded(zero);
        }
        TlConnectRequest2 { base: value, silo_id: zero }
    }
}

impl vstd::std_specs::convert::FromSpecImpl<TlConnectRequest> for TlConnectRequest2 {
    open spec fn obeys_from_spec() -> bool {
        true
    }

    open spec fn from_spec(v: TlConnectRequest) -> Self {
        TlConnectRequest2 { base: v, silo_id: Guid::zero() }
    }
}

/// Host to guest: outcome of a [`TlConnectRequest`].
#[derive(Copy, Clone, Debug, PartialEq, Eq)]
pub struct TlConnectResult {
    pub endpoint_id: Guid,
    pub service_id: Guid,
    pub status: i32,
}

impl Wire for TlConnectResult {
    open spec fn wire(&self) -> Seq<u8> {
        self.endpoint_id.wire() + self.service_id.wire() + self.status.wire()
    }

    open spec fn wire_len() -> nat {
        36
    }

    proof fn lemma_wire_len(&self) {
        self.endpoint_id.lemma_wire_len();
        self.service_id.lemma_wire_len();
        self.status.lemma_wire_len();
    }

    proof fn lemma_injective(&self, other: &Self) {
        self.endpoint_id.lemma_wire_len();
        other.endpoint_id.lemma_wire_len();
        self.service_id.lemma_wire_len();
        other.service_id.lemma_wire_len();
        self.status.lemma_wire_len();
        other.status.lemma_wire_len();
        let b = self.wire();
        assert(self.endpoint_id.wire() =~= b.subrange(0, 16));
        assert(other.endpoint_id.wire() =~= b.subrange(0, 16));
        self.endpoint_id.lemma_injective(&other.endpoint_id);
        assert(self.service_id.wire() =~= b.subrange(16, 32));
        assert(other.service_id.wire() =~= b.subrange(16, 32));
        self.service_id.lemma_injective(&other.service_id);
        assert(self.status.wire() =~= b.subrange(32, 36));
        assert(other.status.wire() =~= b.subrange(32, 36));
        self.status.lemma_injective(&other.status);
    }

    fn wire_size() -> (n: usize) {
        36
    }

    fn write_to(&self, out: &mut Vec<u8>) {
        self.endpoint_id.write_to(out);
        self.service_id.write_to(out);
        self.status.write_to(out);
        proof {
            assert(out@ =~= old(out)@ + self.wire());
        }
    }

    fn read_at(bytes: &[u8], off: usize) -> (r: Self) {
        proof {
            wire::lemma_slice_len(bytes);
        }
        let r = TlConnectResult {
            endpoint_id: Guid::read_at(bytes, off),
            service_id: Guid::read_at(bytes, off + 16),
            status: i32::read_at(bytes, off + 32),
        };
        proof {
            r.lemma_wire_len();
            r.endpoint_id.lemma_wire_len();
            r.service_id.lemma_wire_len();
            r.status.lemma_wire_len();
            assert(r.wire() =~= bytes@.subrange(off as int, off + 36));
        }
        r
    }
}

impl VmbusMessage for TlConnectResult {
    const MESSAGE_TYPE: u32 = MessageType::TL_CONNECT_RESULT;

    const MESSAGE_SIZE: usize = 44;

    open spec fn type_word() -> u32 {
        MessageType::TL_CONNECT_RESULT
    }

    proof fn lemma_message() {
    }
}

// ---------------------------------------------------------------------------
// Empty control messages
// ---------------------------------------------------------------------------
/// Guest to host: send all offers.
#[derive(Copy, Clone, Debug, Default, PartialEq, Eq)]
pub struct RequestOffers;

impl Wire for RequestOffers {
    open spec fn wire(&self) -> Seq<u8> {
        Seq::empty()
    }

    open spec fn wire_len() -> nat {
        0
    }

    proof fn lemma_wire_len(&self) {
    }

    proof fn lemma_injective(&self, other: &Self) {
    }

    fn wire_size() -> (n: usize) {
        0
    }

    fn write_to(&self, out: &mut Vec<u8>) {
        proof {
            assert(out@ =~= old(out)@ + self.wire());
        }
    }

    fn read_at(bytes: &[u8], off: usize) -> (r: Self) {
        let r = RequestOffers;
        proof {
            assert(r.wire() =~= bytes@.subrange(off as int, off + 0));
        }
        r
    }
}

impl VmbusMessage for RequestOffers {
    const MESSAGE_TYPE: u32 = MessageType::REQUEST_OFFERS;

    const MESSAGE_SIZE: usize = 8;

    open spec fn type_word() -> u32 {
        MessageType::REQUEST_OFFERS
    }

    proof fn lemma_message() {
    }
}

/// Host to guest: there are no further offers.
#[derive(Copy, Clone, Debug, Default, PartialEq, Eq)]
pub struct AllOffersDelivered;

impl Wire for AllOffersDelivered {
    open spec fn wire(&self) -> Seq<u8> {
        Seq::empty()
    }

    open spec fn wire_len() -> nat {
        0
    }

    proof fn lemma_wire_len(&self) {
    }

    proof fn lemma_injective(&self, other: &Self) {
    }

    fn wire_size() -> (n: usize) {
        0
    }

    fn write_to(&self, out: &mut Vec<u8>) {
        proof {
            assert(out@ =~= old(out)@ + self.wire());
        }
    }

    fn read_at(bytes: &[u8], off: usize) -> (r: Self) {
        let r = AllOffersDelivered;
        proof {
            assert(r.wire() =~= bytes@.subrange(off as int, off + 0));
        }
        r
    }
}

impl VmbusMessage for AllOffersDelivered {
    const MESSAGE_TYPE: u32 = MessageType::ALL_OFFERS_DELIVERED;

    const MESSAGE_SIZE: usize = 8;

    open spec fn type_word() -> u32 {
        MessageType::ALL_OFFERS_DELIVERED
    }

    proof fn lemma_message() {
    }
}

/// Guest to host: end the connection.
#[derive(Copy, Clone, Debug, Default, PartialEq, Eq)]
pub struct Unload;

impl Wire for Unload {
    open spec fn wire(&self) -> Seq<u8> {
        Seq::empty()
    }

    open spec fn wire_len() -> nat {
        0
    }

    proof fn lemma_wire_len(&self) {
    }

    proof fn lemma_injective(&self, other: &Self) {
    }

    fn wire_size() -> (n: usize) {
        0
    }

    fn write_to(&self, out: &mut Vec<u8>) {
        proof {
            assert(out@ =~= old(out)@ + self.wire());
        }
    }

    fn read_at(bytes: &[u8], off: usize) -> (r: Self) {
        let r = Unload;
        proof {
            assert(r.wire() =~= bytes@.subrange(off as int, off + 0));
        }
        r
    }
}

impl VmbusMessage for Unload {
    const MESSAGE_TYPE: u32 = MessageType::UNLOAD;

    const MESSAGE_SIZE: usize = 8;

    open spec fn type_word() -> u32 {
        MessageType::UNLOAD
    }

    proof fn lemma_message() {
    }
}

/// Host to guest: the connection has ended.
#[derive(Copy, Clone, Debug, Default, PartialEq, Eq)]
pub struct UnloadComplete;

impl Wire for UnloadComplete {
    open spec fn wire(&self) -> Seq<u8> {
        Seq::empty()
    }

    open spec fn wire_len() -> nat {
        0
    }

    proof fn lemma_wire_len(&self) {
    }

    proof fn lemma_injective(&self, other: &Self) {
    }

    fn wire_size() -> (n: usize) {
        0
    }

    fn write_to(&self, out: &mut Vec<u8>) {
        proof {
            assert(out@ =~= old(out)@ + self.wire());
        }
    }

    fn read_at(bytes: &[u8], off: usize) -> (r: Self) {
        let r = UnloadComplete;
        proof {
            assert(r.wire() =~= bytes@.subrange(off as int, off + 0));
        }
        r
    }
}

impl VmbusMessage for UnloadComplete {
    const MESSAGE_TYPE: u32 = MessageType::UNLOAD_COMPLETE;

    const MESSAGE_SIZE: usize = 8;

    open spec fn type_word() -> u32 {
        MessageType::UNLOAD_COMPLETE
    }

    proof fn lemma_message() {
    }
}

/// Guest to host: hold messages back.
#[derive(Copy, Clone, Debug, Default, PartialEq, Eq)]
pub struct Pause;

impl Wire for Pause {
    open spec fn wire(&self) -> Seq<u8> {
        Seq::empty()
    }

    open spec fn wire_len() -> nat {
        0
    }

    proof fn lemma_wire_len(&self) {
    }

    proof fn lemma_injective(&self, other: &Self) {
    }

    fn wire_size() -> (n: usize) {
        0
    }

    fn write_to(&self, out: &mut Vec<u8>) {
        proof {
            assert(out@ =~= old(out)@ + self.wire());
        }
    }

    fn read_at(bytes: &[u8], off: usize) -> (r: Self) {
        let r = Pause;
        proof {
            assert(r.wire() =~= bytes@.subrange(off as int, off + 0));
        }
        r
    }
}

impl VmbusMessage for Pause {
    const MESSAGE_TYPE: u32 = MessageType::PAUSE;

    const MESSAGE_SIZE: usize = 8;

    open spec fn type_word() -> u32 {
        MessageType::PAUSE
    }

    proof fn lemma_message() {
    }
}

/// Host to guest: messages are held back.
#[derive(Copy, Clone, Debug, Default, PartialEq, Eq)]
pub struct PauseResponse;

impl Wire for PauseResponse {
    open spec fn wire(&self) -> Seq<u8> {
        Seq::empty()
    }

    open spec fn wire_len() -> nat {
        0
    }

    proof fn lemma_wire_len(&self) {
    }

    proof fn lemma_injective(&self, other: &Self) {
    }

    fn wire_size() -> (n: usize) {
        0
    }

    fn write_to(&self, out: &mut Vec<u8>) {
        proof {
            assert(out@ =~= old(out)@ + self.wire());
        }
    }

    fn read_at(bytes: &[u8], off: usize) -> (r: Self) {
        let r = PauseResponse;
        proof {
            assert(r.wire() =~= bytes@.subrange(off as int, off + 0));
        }
        r
    }
}

impl VmbusMessage for PauseResponse {
    const MESSAGE_TYPE: u32 = MessageType::PAUSE_RESPONSE;

    const MESSAGE_SIZE: usize = 8;

    open spec fn type_word() -> u32 {
        MessageType::PAUSE_RESPONSE
    }

    proof fn lemma_message() {
    }
}

/// Guest to host: send messages again.
#[derive(Copy, Clone, Debug, Default, PartialEq, Eq)]
pub struct Resume;

impl Wire for Resume {
    open spec fn wire(&self) -> Seq<u8> {
        Seq::empty()
    }

    open spec fn wire_len() -> nat {
        0
    }

    proof fn lemma_wire_len(&self) {
    }

    proof fn lemma_injective(&self, other: &Self) {
    }

    fn wire_size() -> (n: usize) {
        0
    }

    fn write_to(&self, out: &mut Vec<u8>) {
        proof {
            assert(out@ =~= old(out)@ + self.wire());
        }
    }

    fn read_at(bytes: &[u8], off: usize) -> (r: Self) {
        let r = Resume;
        proof {
            assert(r.wire() =~= bytes@.subrange(off as int, off + 0));
        }
        r
    }
}

impl VmbusMessage for Resume {
    const MESSAGE_TYPE: u32 = MessageType::RESUME;

    const MESSAGE_SIZE: usize = 8;

    open spec fn type_word() -> u32 {
        MessageType::RESUME
    }

    proof fn lemma_message() {
    }
}

// ---------------------------------------------------------------------------
// Packet-layer types (ring buffer)
// ---------------------------------------------------------------------------
/// Packet types stored in the ring buffer descriptor header. Any value
/// can occur, and unknown ones round-trip unchanged.
#[derive(Copy, Clone, Debug, PartialEq, Eq, Structural)]
pub struct PacketType(pub u16);

impl Wire for PacketType {
    open spec fn wire(&self) -> Seq<u8> {
        self.0.wire()
    }

    open spec fn wire_len() -> nat {
        2
    }

    proof fn lemma_wire_len(&self) {
        self.0.lemma_wire_len();
    }

    proof fn lemma_injective(&self, other: &Self) {
        self.0.lemma_injective(&other.0);
    }

    fn wire_size() -> (n: usize) {
        2
    }

    fn write_to(&self, out: &mut Vec<u8>) {
        self.0.write_to(out);
    }

    fn read_at(bytes: &[u8], off: usize) -> (r: Self) {
        let r = PacketType(u16::read_at(bytes, off));
        r
    }
}

impl PacketType {
    pub const INVALID: u16 = 0x0;

    pub const VM_PKT_ESTABLISH_GPADL: u16 = 0x4;

    pub const VM_PKT_TEARDOWN_GPADL: u16 = 0x5;

    pub const VM_PKT_DATA_INBAND: u16 = 0x6;

    pub const VM_PKT_DATA_USING_XFER_PAGES: u16 = 0x7;

    pub const VM_PKT_DATA_USING_GPADL: u16 = 0x8;

    pub const VM_PKT_DATA_USING_GPA_DIRECT: u16 = 0x9;

    pub const VM_PKT_COMP: u16 = 0xB;
}

/// Options of a ring packet.
#[derive(Copy, Clone, Debug, PartialEq, Eq, Structural)]
pub struct PacketFlags(pub u16);

impl Wire for PacketFlags {
    open spec fn wire(&self) -> Seq<u8> {
        self.0.wire()
    }

    open spec fn wire_len() -> nat {
        2
    }

    proof fn lemma_wire_len(&self) {
        self.0.lemma_wire_len();
    }

    proof fn lemma_injective(&self, other: &Self) {
        self.0.lemma_injective(&other.0);
    }

    fn wire_size() -> (n: usize) {
        2
    }

    fn write_to(&self, out: &mut Vec<u8>) {
        self.0.write_to(out);
    }

    fn read_at(bytes: &[u8], off: usize) -> (r: Self) {
        let r = PacketFlags(u16::read_at(bytes, off));
        r
    }
}

impl PacketFlags {
    /// No flag set.
    pub fn new() -> (r: Self)
        ensures
            r.0 == 0,
    {
        PacketFlags(0)
    }

    /// The flags in `bits`.
    pub fn from_bits(bits: u16) -> (r: Self)
        ensures
            r.0 == bits,
    {
        PacketFlags(bits)
    }

    /// The flags as an integer.
    pub fn into_bits(self) -> (r: u16)
        ensures
            r == self.0,
    {
        self.0
    }

    /// Set when this packet expects a completion.
    pub fn request_completion(&self) -> (r: bool)
        ensures
            r == (self.0 & 0x1 != 0),
    {
        self.0 & 0x1 != 0
    }

    /// Set or clear [`Self::request_completion`].
    pub fn with_request_completion(self, v: bool) -> (r: Self)
        ensures
            r.0 == with_bits16(self.0, 0x1, v),
    {
        if v {
            PacketFlags(self.0 | 0x1)
        } else {
            PacketFlags(self.0 & !0x1u16)
        }
    }
}

impl PacketFlags {
    /// Set or clear [`Self::request_completion`] in place.
    pub fn set_request_completion(&mut self, v: bool)
        ensures
            final(self).0 == with_bits16(old(self).0, 0x1, v),
    {
        *self = self.with_request_completion(v);
    }
}

/// Descriptor at the head of each ring-buffer packet.
///
/// **Field order matters**: a host silently drops packets whose `flags`
/// stand in another place.
#[derive(Copy, Clone, Debug, PartialEq, Eq)]
pub struct PacketDescriptor {
    pub packet_type: PacketType,
    /// Offset from the start of the descriptor to the payload, in units of
    /// 8 bytes.
    pub data_offset8: u16,
    /// Length of the packet including the descriptor but not the footer, in
    /// units of 8 bytes.
    pub length8: u16,
    pub flags: PacketFlags,
    /// Correlator returned in the corresponding completion packet.
    pub transaction_id: u64,
}

impl Wire for PacketDescriptor {
    open spec fn wire(&self) -> Seq<u8> {
        self.packet_type.wire()
            + self.data_offset8.wire()
            + self.length8.wire()
            + self.flags.wire()
            + self.transaction_id.wire()
    }

    open spec fn wire_len() -> nat {
        16
    }

    proof fn lemma_wire_len(&self) {
        self.packet_type.lemma_wire_len();
        self.data_offset8.lemma_wire_len();
        self.length8.lemma_wire_len();
        self.flags.lemma_wire_len();
        self.transaction_id.lemma_wire_len();
    }

    proof fn lemma_injective(&self, other: &Self) {
        self.packet_type.lemma_wire_len();
        other.packet_type.lemma_wire_len();
        self.data_offset8.lemma_wire_len();
        other.data_offset8.lemma_wire_len();
        self.length8.lemma_wire_len();
        other.length8.lemma_wire_len();
        self.flags.lemma_wire_len();
        other.flags.lemma_wire_len();
        self.transaction_id.lemma_wire_len();
        other.transaction_id.lemma_wire_len();
        let b = self.wire();
        assert(self.packet_type.wire() =~= b.subrange(0, 2));
        assert(other.packet_type.wire() =~= b.subrange(0, 2));
        self.packet_type.lemma_injective(&other.packet_type);
        assert(self.data_offset8.wire() =~= b.subrange(2, 4));
        assert(other.data_offset8.wire() =~= b.subrange(2, 4));
        self.data_offset8.lemma_injective(&other.data_offset8);
        assert(self.length8.wire() =~= b.subrange(4, 6));
        assert(other.length8.wire() =~= b.subrange(4, 6));
        self.length8.lemma_injective(&other.length8);
        assert(self.flags.wire() =~= b.subrange(6, 8));
        assert(other.flags.wire() =~= b.subrange(6, 8));
        self.flags.lemma_injective(&other.flags);
        assert(self.transaction_id.wire() =~= b.subrange(8, 16));
        assert(other.transaction_id.wire() =~= b.subrange(8, 16));
        self.transaction_id.lemma_injective(&other.transaction_id);
    }

    fn wire_size() -> (n: usize) {
        16
    }

    fn write_to(&self, out: &mut Vec<u8>) {
        self.packet_type.write_to(out);
        self.data_offset8.write_to(out);
        self.length8.write_to(out);
        self.flags.write_to(out);
        self.transaction_id.write_to(out);
        proof {
            assert(out@ =~= old(out)@ + self.wire());
        }
    }

    fn read_at(bytes: &[u8], off: usize) -> (r: Self) {
        proof {
            wire::lemma_slice_len(bytes);
        }
        let r = PacketDescriptor {
            packet_type: PacketType::read_at(bytes, off),
            data_offset8: u16::read_at(bytes, off + 2),
            length8: u16::read_at(bytes, off + 4),
            flags: PacketFlags::read_at(bytes, off + 6),
            transaction_id: u64::read_at(bytes, off + 8),
        };
        proof {
            r.lemma_wire_len();
            r.packet_type.lemma_wire_len();
            r.data_offset8.lemma_wire_len();
            r.length8.lemma_wire_len();
            r.flags.lemma_wire_len();
            r.transaction_id.lemma_wire_len();
            assert(r.wire() =~= bytes@.subrange(off as int, off + 16));
        }
        r
    }
}

/// GPA range as it appears on the wire for `VM_PKT_DATA_USING_GPA_DIRECT`
/// and inside [`GpadlHeader`] bodies. Followed by page frame numbers.
#[derive(Copy, Clone, Debug, PartialEq, Eq)]
pub struct GpaRange {
    pub byte_count: u32,
    pub byte_offset: u32,
}

impl Wire for GpaRange {
    open spec fn wire(&self) -> Seq<u8> {
        self.byte_count.wire() + self.byte_offset.wire()
    }

    open spec fn wire_len() -> nat {
        8
    }

    proof fn lemma_wire_len(&self) {
        self.byte_count.lemma_wire_len();
        self.byte_offset.lemma_wire_len();
    }

    proof fn lemma_injective(&self, other: &Self) {
        self.byte_count.lemma_wire_len();
        other.byte_count.lemma_wire_len();
        self.byte_offset.lemma_wire_len();
        other.byte_offset.lemma_wire_len();
        let b = self.wire();
        assert(self.byte_count.wire() =~= b.subrange(0, 4));
        assert(other.byte_count.wire() =~= b.subrange(0, 4));
        self.byte_count.lemma_injective(&other.byte_count);
        assert(self.byte_offset.wire() =~= b.subrange(4, 8));
        assert(other.byte_offset.wire() =~= b.subrange(4, 8));
        self.byte_offset.lemma_injective(&other.byte_offset);
    }

    fn wire_size() -> (n: usize) {
        8
    }

    fn write_to(&self, out: &mut Vec<u8>) {
        self.byte_count.write_to(out);
        self.byte_offset.write_to(out);
        proof {
            assert(out@ =~= old(out)@ + self.wire());
        }
    }

    fn read_at(bytes: &[u8], off: usize) -> (r: Self) {
        proof {
            wire::lemma_slice_len(bytes);
        }
        let r = GpaRange {
            byte_count: u32::read_at(bytes, off),
            byte_offset: u32::read_at(bytes, off + 4),
        };
        proof {
            r.lemma_wire_len();
            r.byte_count.lemma_wire_len();
            r.byte_offset.lemma_wire_len();
            assert(r.wire() =~= bytes@.subrange(off as int, off + 8));
        }
        r
    }
}

/// Extended header sitting between the [`PacketDescriptor`] and the
/// payload for `VM_PKT_DATA_USING_GPA_DIRECT` packets.
#[derive(Copy, Clone, Debug, PartialEq, Eq)]
pub struct GpaDirectHeader {
    /// Must be zero on send; may carry garbage on receive.
    pub reserved: u32,
    /// Number of [`GpaRange`] records that follow.
    pub range_count: u32,
}

impl Wire for GpaDirectHeader {
    open spec fn wire(&self) -> Seq<u8> {
        self.reserved.wire() + self.range_count.wire()
    }

    open spec fn wire_len() -> nat {
        8
    }

    proof fn lemma_wire_len(&self) {
        self.reserved.lemma_wire_len();
        self.range_count.lemma_wire_len();
    }

    proof fn lemma_injective(&self, other: &Self) {
        self.reserved.lemma_wire_len();
        other.reserved.lemma_wire_len();
        self.range_count.lemma_wire_len();
        other.range_count.lemma_wire_len();
        let b = self.wire();
        assert(self.reserved.wire() =~= b.subrange(0, 4));
        assert(other.reserved.wire() =~= b.subrange(0, 4));
        self.reserved.lemma_injective(&other.reserved);
        assert(self.range_count.wire() =~= b.subrange(4, 8));
        assert(other.range_count.wire() =~= b.subrange(4, 8));
        self.range_count.lemma_injective(&other.range_count);
    }

    fn wire_size() -> (n: usize) {
        8
    }

    fn write_to(&self, out: &mut Vec<u8>) {
        self.reserved.write_to(out);
        self.range_count.write_to(out);
        proof {
            assert(out@ =~= old(out)@ + self.wire());
        }
    }

    fn read_at(bytes: &[u8], off: usize) -> (r: Self) {
        proof {
            wire::lemma_slice_len(bytes);
        }
        let r = GpaDirectHeader {
            reserved: u32::read_at(bytes, off),
            range_count: u32::read_at(bytes, off + 4),
        };
        proof {
            r.lemma_wire_len();
            r.reserved.lemma_wire_len();
            r.range_count.lemma_wire_len();
            assert(r.wire() =~= bytes@.subrange(off as int, off + 8));
        }
        r
    }
}

/// Extended header on `VM_PKT_DATA_USING_XFER_PAGES` packets.
#[derive(Copy, Clone, Debug, PartialEq, Eq)]
pub struct TransferPageHeader {
    /// Identifies the transfer-page set (receive buffer).
    pub transfer_page_set_id: u16,
    /// May carry garbage.
    pub reserved: u16,
    /// Number of [`TransferPageRange`] records that follow.
    pub range_count: u32,
}

impl Wire for TransferPageHeader {
    open spec fn wire(&self) -> Seq<u8> {
        self.transfer_page_set_id.wire() + self.reserved.wire() + self.range_count.wire()
    }

    open spec fn wire_len() -> nat {
        8
    }

    proof fn lemma_wire_len(&self) {
        self.transfer_page_set_id.lemma_wire_len();
        self.reserved.lemma_wire_len();
        self.range_count.lemma_wire_len();
    }

    proof fn lemma_injective(&self, other: &Self) {
        self.transfer_page_set_id.lemma_wire_len();
        other.transfer_page_set_id.lemma_wire_len();
        self.reserved.lemma_wire_len();
        other.reserved.lemma_wire_len();
        self.range_count.lemma_wire_len();
        other.range_count.lemma_wire_len();
        let b = self.wire();
        assert(self.transfer_page_set_id.wire() =~= b.subrange(0, 2));
        assert(other.transfer_page_set_id.wire() =~= b.subrange(0, 2));
        self.transfer_page_set_id.lemma_injective(&other.transfer_page_set_id);
        assert(self.reserved.wire() =~= b.subrange(2, 4));
        assert(other.reserved.wire() =~= b.subrange(2, 4));
        self.reserved.lemma_injective(&other.reserved);
        assert(self.range_count.wire() =~= b.subrange(4, 8));
        assert(other.range_count.wire() =~= b.subrange(4, 8));
        self.range_count.lemma_injective(&other.range_count);
    }

    fn wire_size() -> (n: usize) {
        8
    }

    fn write_to(&self, out: &mut Vec<u8>) {
        self.transfer_page_set_id.write_to(out);
        self.reserved.write_to(out);
        self.range_count.write_to(out);
        proof {
            assert(out@ =~= old(out)@ + self.wire());
        }
    }

    fn read_at(bytes: &[u8], off: usize) -> (r: Self) {
        proof {
            wire::lemma_slice_len(bytes);
        }
        let r = TransferPageHeader {
            transfer_page_set_id: u16::read_at(bytes, off),
            reserved: u16::read_at(bytes, off + 2),
            range_count: u32::read_at(bytes, off + 4),
        };
        proof {
            r.lemma_wire_len();
            r.transfer_page_set_id.lemma_wire_len();
            r.reserved.lemma_wire_len();
            r.range_count.lemma_wire_len();
            assert(r.wire() =~= bytes@.subrange(off as int, off + 8));
        }
        r
    }
}

/// Where in the receive buffer the host wrote one sub-message.
#[derive(Copy, Clone, Debug, PartialEq, Eq)]
pub struct TransferPageRange {
    /// Length of the sub-message in bytes.
    pub byte_count: u32,
    /// Offset of the sub-message from the start of the receive buffer.
    pub byte_offset: u32,
}

impl Wire for TransferPageRange {
    open spec fn wire(&self) -> Seq<u8> {
        self.byte_count.wire() + self.byte_offset.wire()
    }

    open spec fn wire_len() -> nat {
        8
    }

    proof fn lemma_wire_len(&self) {
        self.byte_count.lemma_wire_len();
        self.byte_offset.lemma_wire_len();
    }

    proof fn lemma_injective(&self, other: &Self) {
        self.byte_count.lemma_wire_len();
        other.byte_count.lemma_wire_len();
        self.byte_offset.lemma_wire_len();
        other.byte_offset.lemma_wire_len();
        let b = self.wire();
        assert(self.byte_count.wire() =~= b.subrange(0, 4));
        assert(other.byte_count.wire() =~= b.subrange(0, 4));
        self.byte_count.lemma_injective(&other.byte_count);
        assert(self.byte_offset.wire() =~= b.subrange(4, 8));
        assert(other.byte_offset.wire() =~= b.subrange(4, 8));
        self.byte_offset.lemma_injective(&other.byte_offset);
    }

    fn wire_size() -> (n: usize) {
        8
    }

    fn write_to(&self, out: &mut Vec<u8>) {
        self.byte_count.write_to(out);
        self.byte_offset.write_to(out);
        proof {
            assert(out@ =~= old(out)@ + self.wire());
        }
    }

    fn read_at(bytes: &[u8], off: usize) -> (r: Self) {
        proof {
            wire::lemma_slice_len(bytes);
        }
        let r = TransferPageRange {
            byte_count: u32::read_at(bytes, off),
            byte_offset: u32::read_at(bytes, off + 4),
        };
        proof {
            r.lemma_wire_len();
            r.byte_count.lemma_wire_len();
            r.byte_offset.lemma_wire_len();
            assert(r.wire() =~= bytes@.subrange(off as int, off + 8));
        }
        r
    }
}

} // verus!
