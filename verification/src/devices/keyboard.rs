//! Hyper-V synthetic keyboard vdev, the `f912ad6d-...` VMBus device.
//!
//! # Flow
//!
//! 1. Caller identifies the keyboard offer in the offer list returned
//!    by [`crate::request_offers`] (interface GUID [`interface_guid`]).
//! 2. Caller allocates a 4-page ring region (send-ctrl, send-data,
//!    recv-ctrl, recv-data), establishes a GPADL over it with
//!    [`crate::gpadl::establish_gpadl`], and opens the channel via
//!    [`crate::channel::open_channel`].
//! 3. Caller wraps the [`Channel`] and the two ring memories in a
//!    [`Keyboard`] and calls [`Keyboard::negotiate_version`].
//! 4. [`Keyboard::poll_keystrokes`] drains any pending keyboard
//!    events; [`Keyboard::set_leds`] tests the send path.
//! 5. Caller [`crate::channel::close_channel`]s the underlying
//!    channel when done.
//!
//! No SINT-based interrupt path is required: polling the recv ring
//! is sufficient.
use crate::channel::Channel;
use crate::devices::link;
use crate::devices::link::Link;
use crate::error::Error;
use crate::error::Result;
use crate::hypercalls::spin_once;
use crate::hypercalls::HvCtx;
use crate::hypercalls::HypercallTrait;
use crate::packet;
use crate::packet::InPacket;
use crate::packet::QueuedPacket;
use crate::protocol::Guid;
use crate::protocol::PacketFlags;
use crate::ring;
use crate::ring::RecvRing;
use crate::ring::RingMem;
use crate::ring::SendRing;
use crate::wire;
use crate::wire::Wire;
use vstd::prelude::*;

verus! {

broadcast use crate::hypercalls::group_ran;

/// `f912ad6d-2b17-48ea-bd65-f927a61c7684`: VMBus interface GUID for
/// the Hyper-V synthetic keyboard.
pub fn interface_guid() -> (r: Guid)
    ensures
        r.data1 == 0xf912_ad6d,
        r.data2 == 0x2b17,
        r.data3 == 0x48ea,
        r.data4@ == seq![0xbdu8, 0x65, 0xf9, 0x27, 0xa6, 0x1c, 0x76, 0x84],
{
    Guid {
        data1: 0xf912_ad6d,
        data2: 0x2b17,
        data3: 0x48ea,
        data4: [0xbd, 0x65, 0xf9, 0x27, 0xa6, 0x1c, 0x76, 0x84],
    }
}

/// Protocol version, `major << 16 | minor`.
pub const VERSION_WIN8: u32 = 0x1_0000;

/// Guest request to negotiate a keyboard protocol version.
pub const MESSAGE_PROTOCOL_REQUEST: u32 = 1;

/// Host response to a keyboard protocol version request.
pub const MESSAGE_PROTOCOL_RESPONSE: u32 = 2;

/// Host notification containing a keyboard event.
pub const MESSAGE_EVENT: u32 = 3;

/// Guest request to update the keyboard LED state.
pub const MESSAGE_SET_LED_INDICATORS: u32 = 4;

/// The make code contains a Unicode character rather than a scan code.
pub const KEYSTROKE_IS_UNICODE: u32 = 1;

/// The event releases a key rather than pressing it.
pub const KEYSTROKE_IS_BREAK: u32 = 2;

/// The scan code has an `E0` prefix.
pub const KEYSTROKE_IS_E0: u32 = 4;

/// The scan code has an `E1` prefix.
pub const KEYSTROKE_IS_E1: u32 = 8;

/// Maximum bytes we expect any keyboard message to occupy.
pub const MAXIMUM_MESSAGE_SIZE: usize = 256;

/// Bytes that a read of the ring is given: room for a message of
/// [`MAXIMUM_MESSAGE_SIZE`], and 8 more, because [`RecvRing::read`] asks for
/// all of the packet but its footer.
pub const RECV_BUFFER_SIZE: usize = 264;

/// Regular data packet. Kept as a documentation constant even though the
/// synthetic-keyboard vdev uses raw INBAND packets (no pipe header).
pub const PIPE_PACKET_TYPE_DATA: u32 = 1;

/// Wire header for every keyboard packet.
#[derive(Copy, Clone, Debug, PartialEq, Eq)]
pub struct MessageHeader {
    /// Identifies the body layout that follows this header.
    pub message_type: u32,
}

impl Wire for MessageHeader {
    open spec fn wire(&self) -> Seq<u8> {
        self.message_type.wire()
    }

    open spec fn wire_len() -> nat {
        4
    }

    proof fn lemma_wire_len(&self) {
        self.message_type.lemma_wire_len();
    }

    proof fn lemma_injective(&self, other: &Self) {
        self.message_type.lemma_injective(&other.message_type);
    }

    fn wire_size() -> (n: usize) {
        4
    }

    fn write_to(&self, out: &mut Vec<u8>) {
        self.message_type.write_to(out);
    }

    fn read_at(bytes: &[u8], off: usize) -> (r: Self) {
        let r = MessageHeader {
            message_type: u32::read_at(bytes, off),
        };
        r
    }
}

/// `MESSAGE_PROTOCOL_REQUEST` body, guest to host.
#[derive(Copy, Clone, Debug, PartialEq, Eq)]
pub struct MessageProtocolRequest {
    /// Requested protocol version encoded as `major << 16 | minor`.
    pub version: u32,
}

impl Wire for MessageProtocolRequest {
    open spec fn wire(&self) -> Seq<u8> {
        self.version.wire()
    }

    open spec fn wire_len() -> nat {
        4
    }

    proof fn lemma_wire_len(&self) {
        self.version.lemma_wire_len();
    }

    proof fn lemma_injective(&self, other: &Self) {
        self.version.lemma_injective(&other.version);
    }

    fn wire_size() -> (n: usize) {
        4
    }

    fn write_to(&self, out: &mut Vec<u8>) {
        self.version.write_to(out);
    }

    fn read_at(bytes: &[u8], off: usize) -> (r: Self) {
        let r = MessageProtocolRequest {
            version: u32::read_at(bytes, off),
        };
        r
    }
}

/// `MESSAGE_PROTOCOL_RESPONSE` body, host to guest.
///
/// `accepted != 0` means the host is willing to speak the requested
/// version.
#[derive(Copy, Clone, Debug, PartialEq, Eq)]
pub struct MessageProtocolResponse {
    /// Nonzero when the host accepts the requested protocol version.
    pub accepted: u32,
}

impl Wire for MessageProtocolResponse {
    open spec fn wire(&self) -> Seq<u8> {
        self.accepted.wire()
    }

    open spec fn wire_len() -> nat {
        4
    }

    proof fn lemma_wire_len(&self) {
        self.accepted.lemma_wire_len();
    }

    proof fn lemma_injective(&self, other: &Self) {
        self.accepted.lemma_injective(&other.accepted);
    }

    fn wire_size() -> (n: usize) {
        4
    }

    fn write_to(&self, out: &mut Vec<u8>) {
        self.accepted.write_to(out);
    }

    fn read_at(bytes: &[u8], off: usize) -> (r: Self) {
        let r = MessageProtocolResponse {
            accepted: u32::read_at(bytes, off),
        };
        r
    }
}

/// `MESSAGE_EVENT` body, host to guest, one PS/2 make/break code
/// per packet.
#[derive(Copy, Clone, Debug, PartialEq, Eq)]
pub struct MessageKeystroke {
    /// PS/2 make code, or a Unicode character when flagged as Unicode.
    pub make_code: u16,
    /// Reserved padding; must be zero.
    pub padding: u16,
    /// Bitwise combination of the `KEYSTROKE_*` flags.
    pub flags: u32,
}

impl Wire for MessageKeystroke {
    open spec fn wire(&self) -> Seq<u8> {
        self.make_code.wire() + self.padding.wire() + self.flags.wire()
    }

    open spec fn wire_len() -> nat {
        8
    }

    proof fn lemma_wire_len(&self) {
        self.make_code.lemma_wire_len();
        self.padding.lemma_wire_len();
        self.flags.lemma_wire_len();
    }

    proof fn lemma_injective(&self, other: &Self) {
        self.make_code.lemma_wire_len();
        other.make_code.lemma_wire_len();
        self.padding.lemma_wire_len();
        other.padding.lemma_wire_len();
        self.flags.lemma_wire_len();
        other.flags.lemma_wire_len();
        let b = self.wire();
        assert(self.make_code.wire() =~= b.subrange(0, 2));
        assert(other.make_code.wire() =~= b.subrange(0, 2));
        self.make_code.lemma_injective(&other.make_code);
        assert(self.padding.wire() =~= b.subrange(2, 4));
        assert(other.padding.wire() =~= b.subrange(2, 4));
        self.padding.lemma_injective(&other.padding);
        assert(self.flags.wire() =~= b.subrange(4, 8));
        assert(other.flags.wire() =~= b.subrange(4, 8));
        self.flags.lemma_injective(&other.flags);
    }

    fn wire_size() -> (n: usize) {
        8
    }

    fn write_to(&self, out: &mut Vec<u8>) {
        self.make_code.write_to(out);
        self.padding.write_to(out);
        self.flags.write_to(out);
        proof {
            assert(out@ =~= old(out)@ + self.wire());
        }
    }

    fn read_at(bytes: &[u8], off: usize) -> (r: Self) {
        proof {
            wire::lemma_slice_len(bytes);
        }
        let r = MessageKeystroke {
            make_code: u16::read_at(bytes, off),
            padding: u16::read_at(bytes, off + 2),
            flags: u32::read_at(bytes, off + 4),
        };
        proof {
            r.lemma_wire_len();
            r.make_code.lemma_wire_len();
            r.padding.lemma_wire_len();
            r.flags.lemma_wire_len();
            assert(r.wire() =~= bytes@.subrange(off as int, off + 8));
        }
        r
    }
}

/// `MESSAGE_SET_LED_INDICATORS` body, guest to host. Bit-mask of the
/// LEDs the guest wants lit.
#[derive(Copy, Clone, Debug, PartialEq, Eq)]
pub struct MessageLedIndicatorsState {
    /// Bit mask describing which keyboard LEDs should be lit.
    pub led_flags: u16,
    /// Reserved padding; must be zero.
    pub padding: u16,
}

impl Wire for MessageLedIndicatorsState {
    open spec fn wire(&self) -> Seq<u8> {
        self.led_flags.wire() + self.padding.wire()
    }

    open spec fn wire_len() -> nat {
        4
    }

    proof fn lemma_wire_len(&self) {
        self.led_flags.lemma_wire_len();
        self.padding.lemma_wire_len();
    }

    proof fn lemma_injective(&self, other: &Self) {
        self.led_flags.lemma_wire_len();
        other.led_flags.lemma_wire_len();
        self.padding.lemma_wire_len();
        other.padding.lemma_wire_len();
        let b = self.wire();
        assert(self.led_flags.wire() =~= b.subrange(0, 2));
        assert(other.led_flags.wire() =~= b.subrange(0, 2));
        self.led_flags.lemma_injective(&other.led_flags);
        assert(self.padding.wire() =~= b.subrange(2, 4));
        assert(other.padding.wire() =~= b.subrange(2, 4));
        self.padding.lemma_injective(&other.padding);
    }

    fn wire_size() -> (n: usize) {
        4
    }

    fn write_to(&self, out: &mut Vec<u8>) {
        self.led_flags.write_to(out);
        self.padding.write_to(out);
        proof {
            assert(out@ =~= old(out)@ + self.wire());
        }
    }

    fn read_at(bytes: &[u8], off: usize) -> (r: Self) {
        proof {
            wire::lemma_slice_len(bytes);
        }
        let r = MessageLedIndicatorsState {
            led_flags: u16::read_at(bytes, off),
            padding: u16::read_at(bytes, off + 2),
        };
        proof {
            r.lemma_wire_len();
            r.led_flags.lemma_wire_len();
            r.padding.lemma_wire_len();
            assert(r.wire() =~= bytes@.subrange(off as int, off + 4));
        }
        r
    }
}

/// A parsed inbound keyboard packet.
#[derive(Copy, Clone, Debug)]
pub enum InboundPacket {
    /// `MESSAGE_PROTOCOL_RESPONSE`, from the host.
    ProtocolResponse(MessageProtocolResponse),
    /// `MESSAGE_EVENT`, a keystroke from the host.
    Event(MessageKeystroke),
    /// Any other message type, recorded but not interpreted.
    Other {
        /// Unrecognized wire message type.
        message_type: u32,
        /// Number of bytes following the message header.
        payload_len: usize,
    },
}

/// The packet that a payload holds, or why it holds none.
pub open spec fn packet_in(payload: Seq<u8>) -> Result<InboundPacket> {
    if payload.len() < 4 {
        Ok(InboundPacket::Other { message_type: 0, payload_len: 0 })
    } else {
        let ty = wire::decoded::<MessageHeader>(payload.take(4)).message_type;
        if ty == MESSAGE_PROTOCOL_RESPONSE {
            if payload.len() < 8 {
                Err(Error::Parse { ty: None, reason: "keyboard protocol response parse failed" })
            } else {
                Ok(
                    InboundPacket::ProtocolResponse(
                        wire::decoded::<MessageProtocolResponse>(payload.subrange(4, 8)),
                    ),
                )
            }
        } else if ty == MESSAGE_EVENT {
            if payload.len() < 12 {
                Err(Error::Parse { ty: None, reason: "keyboard event parse failed" })
            } else {
                Ok(
                    InboundPacket::Event(
                        wire::decoded::<MessageKeystroke>(payload.subrange(4, 12)),
                    ),
                )
            }
        } else {
            Ok(
                InboundPacket::Other {
                    message_type: ty,
                    payload_len: (payload.len() - 4) as usize,
                },
            )
        }
    }
}

/// Interpret the payload of a packet from the host.
pub fn parse_packet(payload: &[u8]) -> (r: Result<InboundPacket>)
    ensures
        r == packet_in(payload@),
{
    if payload.len() < 4 {
        return Ok(InboundPacket::Other { message_type: 0, payload_len: 0 });
    }
    let hdr = MessageHeader::read_at(payload, 0);
    proof {
        assert(payload@.subrange(0, 4) =~= payload@.take(4));
        wire::lemma_decoded(hdr);
    }
    if hdr.message_type == MESSAGE_PROTOCOL_RESPONSE {
        if payload.len() < 8 {
            return Err(
                Error::Parse { ty: None, reason: "keyboard protocol response parse failed" },
            );
        }
        let resp = MessageProtocolResponse::read_at(payload, 4);
        proof {
            wire::lemma_decoded(resp);
        }
        Ok(InboundPacket::ProtocolResponse(resp))
    } else if hdr.message_type == MESSAGE_EVENT {
        if payload.len() < 12 {
            return Err(Error::Parse { ty: None, reason: "keyboard event parse failed" });
        }
        let ks = MessageKeystroke::read_at(payload, 4);
        proof {
            wire::lemma_decoded(ks);
        }
        Ok(InboundPacket::Event(ks))
    } else {
        Ok(
            InboundPacket::Other {
                message_type: hdr.message_type,
                payload_len: payload.len() - 4,
            },
        )
    }
}

/// What a read of the ring means to the keyboard: an empty ring is no
/// packet.
pub open spec fn next_in(out: Result<InPacket>) -> Result<Option<InboundPacket>> {
    match out {
        Ok(p) => match packet_in(p.payload) {
            Ok(k) => Ok(Some(k)),
            Err(e) => Err(e),
        },
        Err(Error::RingEmpty) => Ok(None),
        Err(e) => Err(e),
    }
}

/// What a read means to the version handshake: the host's answer decides
/// it, a failure ends it, anything else is passed over.
pub open spec fn handshake_verdict(out: Result<InPacket>) -> Option<Result<bool>> {
    match next_in(out) {
        Ok(Some(InboundPacket::ProtocolResponse(resp))) => Some(Ok(resp.accepted != 0)),
        Ok(_) => None,
        Err(e) => Some(Err(e)),
    }
}

/// What a read means to a drain of keystrokes: only a failure ends it.
pub open spec fn drain_verdict(out: Result<InPacket>) -> Option<Error> {
    match next_in(out) {
        Ok(_) => None,
        Err(e) => Some(e),
    }
}

/// Number of keystrokes among the outcomes of a run of reads.
pub open spec fn keystrokes_in(outs: Seq<Result<InPacket>>) -> nat
    decreases outs.len(),
{
    if outs.len() == 0 {
        0
    } else {
        keystrokes_in(outs.drop_last()) + (match next_in(outs.last()) {
            Ok(Some(InboundPacket::Event(_))) => 1nat,
            _ => 0nat,
        })
    }
}

/// Waiting for the host's answer to a version request went like this, with
/// at most `limit` reads of the ring.
pub open spec fn answer_awaited<M: RingMem>(
    recv: (RecvRing<M>, RecvRing<M>),
    limit: nat,
    r: Result<bool>,
) -> bool {
    exists|outs: Seq<Result<InPacket>>|
        {
            &&& #[trigger] recv.0.read_run(RECV_BUFFER_SIZE as int, outs, recv.1)
            &&& link::stops(outs, |o| handshake_verdict(o), limit, Some(r)) || (r == Err::<
                bool,
                Error,
            >(Error::Timeout) && link::stops(outs, |o| handshake_verdict(o), limit, None))
        }
}

/// The reads of such a wait.
proof fn lemma_answer_awaited<M: RingMem>(
    recv: (RecvRing<M>, RecvRing<M>),
    limit: nat,
    r: Result<bool>,
    outs: Seq<Result<InPacket>>,
)
    requires
        recv.0.read_run(RECV_BUFFER_SIZE as int, outs, recv.1),
        link::stops(outs, |o| handshake_verdict(o), limit, Some(r)) || (r == Err::<bool, Error>(
            Error::Timeout,
        ) && link::stops(outs, |o| handshake_verdict(o), limit, None)),
    ensures
        answer_awaited(recv, limit, r),
{
}

/// Draining keystrokes went like this, with `limit` reads of the ring.
pub open spec fn keystrokes_drained<M: RingMem>(
    recv: (RecvRing<M>, RecvRing<M>),
    limit: nat,
    r: Result<usize>,
) -> bool {
    exists|outs: Seq<Result<InPacket>>|
        {
            &&& #[trigger] recv.0.read_run(RECV_BUFFER_SIZE as int, outs, recv.1)
            &&& match r {
                Ok(count) => {
                    &&& link::stops(outs, |o| drain_verdict(o), limit, None)
                    &&& count == keystrokes_in(outs)
                },
                Err(e) => link::stops(outs, |o| drain_verdict(o), limit, Some(e)),
            }
        }
}

/// The reads of such a drain.
proof fn lemma_keystrokes_drained<M: RingMem>(
    recv: (RecvRing<M>, RecvRing<M>),
    limit: nat,
    r: Result<usize>,
    outs: Seq<Result<InPacket>>,
)
    requires
        recv.0.read_run(RECV_BUFFER_SIZE as int, outs, recv.1),
        match r {
            Ok(count) => {
                &&& link::stops(outs, |o| drain_verdict(o), limit, None)
                &&& count == keystrokes_in(outs)
            },
            Err(e) => link::stops(outs, |o| drain_verdict(o), limit, Some(e)),
        },
    ensures
        keystrokes_drained(recv, limit, r),
{
}

/// The packets of a queue fit what the keyboard reads them into.
pub open spec fn messages_fit(ps: Seq<QueuedPacket>) -> bool {
    forall|i: int| 0 <= i < ps.len() ==> (#[trigger] ps[i]).body.len() <= MAXIMUM_MESSAGE_SIZE
}

/// What a packet of a queue is to the keyboard.
pub open spec fn message_in(p: QueuedPacket) -> Result<InboundPacket> {
    packet_in(p.received().payload)
}

/// Number of keystrokes among the packets of a queue.
pub open spec fn keystrokes_queued(ps: Seq<QueuedPacket>) -> nat
    decreases ps.len(),
{
    if ps.len() == 0 {
        0
    } else {
        keystrokes_queued(ps.drop_last()) + (match message_in(ps.last()) {
            Ok(InboundPacket::Event(_)) => 1nat,
            _ => 0nat,
        })
    }
}

/// The outcomes of reading a queue up to a point and beyond hold the
/// keystrokes that the queue holds up to there.
proof fn lemma_keystrokes_queued(outs: Seq<Result<InPacket>>, ps: Seq<QueuedPacket>)
    requires
        forall|i: int|
            0 <= i < outs.len() ==> #[trigger] outs[i] == (if i < ps.len() {
                Ok::<InPacket, Error>(ps[i].received())
            } else {
                Err::<InPacket, Error>(Error::RingEmpty)
            }),
    ensures
        keystrokes_in(outs) == keystrokes_queued(
            ps.take(
                if outs.len() <= ps.len() {
                    outs.len() as int
                } else {
                    ps.len() as int
                },
            ),
        ),
    decreases outs.len(),
{
    if outs.len() > 0 {
        let n = outs.len() as int;
        assert forall|i: int| 0 <= i < outs.drop_last().len() implies #[trigger] outs.drop_last()[i]
            == (if i < ps.len() {
            Ok::<InPacket, Error>(ps[i].received())
        } else {
            Err::<InPacket, Error>(Error::RingEmpty)
        }) by {
            assert(outs.drop_last()[i] == outs[i]);
        }
        lemma_keystrokes_queued(outs.drop_last(), ps);
        assert(outs.last() == outs[n - 1]);
        if n <= ps.len() {
            assert(ps.take(n).drop_last() =~= ps.take(n - 1));
            assert(ps.take(n).last() == ps[n - 1]);
        }
    }
}

/// Law: a drain takes every packet that waits, up to its limit, and counts
/// the keystrokes among them, as long as each fits
/// [`MAXIMUM_MESSAGE_SIZE`] and has the body that its type asks for.
pub proof fn law_drain_counts<M: RingMem>(
    recv: (RecvRing<M>, RecvRing<M>),
    ps: Seq<QueuedPacket>,
    limit: nat,
    r: Result<usize>,
)
    requires
        keystrokes_drained(recv, limit, r),
        recv.0.exclusive(),
        packet::holds(recv.0.state(), ps),
        messages_fit(ps),
        forall|i: int| 0 <= i < ps.len() ==> message_in(#[trigger] ps[i]) is Ok,
    ensures
        ({
            let m = if limit <= ps.len() {
                limit as int
            } else {
                ps.len() as int
            };
            &&& r matches Ok(count)
            &&& count == keystrokes_queued(ps.take(m))
            &&& packet::holds(recv.1.state(), ps.skip(m))
        }),
{
    let outs = choose|outs: Seq<Result<InPacket>>|
        {
            &&& #[trigger] recv.0.read_run(RECV_BUFFER_SIZE as int, outs, recv.1)
            &&& match r {
                Ok(count) => {
                    &&& link::stops(outs, |o| drain_verdict(o), limit, None)
                    &&& count == keystrokes_in(outs)
                },
                Err(e) => link::stops(outs, |o| drain_verdict(o), limit, Some(e)),
            }
        };
    ring::law_reads_in_order(recv.0, ps, RECV_BUFFER_SIZE as int, outs, recv.1);
    lemma_keystrokes_queued(outs, ps);
    if outs.len() > 0 {
        let i = outs.len() - 1;
        assert(outs.last() == outs[i]);
        if i < ps.len() {
            assert(message_in(ps[i]) is Ok);
        }
        assert(drain_verdict(outs[i]) is None);
    }
}

/// Law: the first answer among the packets that wait, up to the limit,
/// decides a version request; the packets before it are passed over, and
/// the ones after it stay. Each fits [`MAXIMUM_MESSAGE_SIZE`] and has the
/// body that its type asks for.
pub proof fn law_answer_decides<M: RingMem>(
    recv: (RecvRing<M>, RecvRing<M>),
    ps: Seq<QueuedPacket>,
    limit: nat,
    r: Result<bool>,
    n: int,
)
    requires
        answer_awaited(recv, limit, r),
        recv.0.exclusive(),
        packet::holds(recv.0.state(), ps),
        messages_fit(ps),
        0 <= n <= ps.len(),
        forall|i: int|
            0 <= i < n ==> message_in(#[trigger] ps[i]) is Ok && !(message_in(ps[i])->Ok_0 is
                ProtocolResponse),
        n < ps.len() ==> message_in(ps[n]) is Ok && message_in(ps[n])->Ok_0 is ProtocolResponse,
    ensures
        n < ps.len() && n < limit ==> {
            &&& r == Ok::<bool, Error>(
                (message_in(ps[n])->Ok_0)->ProtocolResponse_0.accepted != 0,
            )
            &&& packet::holds(recv.1.state(), ps.skip(n + 1))
        },
        n >= ps.len() || n >= limit ==> {
            &&& r == Err::<bool, Error>(Error::Timeout)
            &&& packet::holds(
                recv.1.state(),
                ps.skip(
                    if limit <= n {
                        limit as int
                    } else {
                        n
                    },
                ),
            )
        },
{
    let outs = choose|outs: Seq<Result<InPacket>>|
        {
            &&& #[trigger] recv.0.read_run(RECV_BUFFER_SIZE as int, outs, recv.1)
            &&& link::stops(outs, |o| handshake_verdict(o), limit, Some(r)) || (r == Err::<
                bool,
                Error,
            >(Error::Timeout) && link::stops(outs, |o| handshake_verdict(o), limit, None))
        };
    ring::law_reads_in_order(recv.0, ps, RECV_BUFFER_SIZE as int, outs, recv.1);
    assert forall|i: int| 0 <= i < outs.len() && i != n implies i > n && n < ps.len()
        || handshake_verdict(#[trigger] outs[i]) is None by {
        if i < n {
            assert(message_in(ps[i]) is Ok);
        }
    }
    if n < ps.len() && n < outs.len() {
        assert(handshake_verdict(outs[n]) == Some(
            Ok::<bool, Error>((message_in(ps[n])->Ok_0)->ProtocolResponse_0.accepted != 0),
        ));
    }
    if outs.len() > 0 {
        assert(outs.last() == outs[outs.len() - 1]);
    }
}

/// Handle to an open Hyper-V synthetic keyboard channel.
///
/// Wraps an open [`Channel`] plus the send / receive halves of the
/// ring backing it. Nothing is kept across calls beyond what the ring
/// itself already tracks.
pub struct Keyboard<M: RingMem> {
    link: Link<M>,
}

/// The request to speak `version`.
pub open spec fn version_request(version: u32) -> Seq<u8> {
    (MessageHeader { message_type: MESSAGE_PROTOCOL_REQUEST }).wire()
        + (MessageProtocolRequest { version }).wire()
}

/// The request to light these LEDs.
pub open spec fn led_request(led_flags: u16) -> Seq<u8> {
    (MessageHeader { message_type: MESSAGE_SET_LED_INDICATORS }).wire()
        + (MessageLedIndicatorsState { led_flags, padding: 0 }).wire()
}

impl<M: RingMem> Keyboard<M> {
    /// The channel and its ring.
    pub closed spec fn link(&self) -> Link<M> {
        self.link
    }

    /// Both halves of the ring have the shape of a ring.
    pub open spec fn wf(&self) -> bool {
        self.link().wf()
    }

    /// Wrap an open [`Channel`] with the memories of its send / recv
    /// rings. `send_mem` is the ring the guest writes into (host reads);
    /// `recv_mem` is the ring the host writes into (guest reads).
    pub fn new(channel: Channel, send_mem: M, recv_mem: M) -> (r: Self)
        requires
            send_mem.state().wf(),
            recv_mem.state().wf(),
        ensures
            r.wf(),
            r.link().channel == channel,
            r.link().send.made_over(send_mem),
            r.link().recv.made_over(recv_mem),
    {
        Keyboard {
            link: Link {
                channel,
                send: SendRing::new(send_mem),
                recv: RecvRing::new(recv_mem),
            },
        }
    }

    /// Send a `MESSAGE_PROTOCOL_REQUEST` and wait for the paired
    /// `MESSAGE_PROTOCOL_RESPONSE`.
    ///
    /// `max_polls` bounds the wait loop. Returns `Ok(true)` if the host
    /// accepted the version, `Ok(false)` if it rejected,
    /// `Err(Error::Timeout)` otherwise.
    pub fn negotiate_version<C: HypercallTrait>(
        &mut self,
        ctx: &mut HvCtx<C>,
        version: u32,
        max_polls: usize,
    ) -> (r: Result<bool>)
        requires
            old(self).wf(),
        ensures
            old(ctx).ran_to(*final(ctx)),
            final(self).wf(),
            exists|mid: Link<M>, sent: Result<()>| #[trigger]
                old(self).link().posted(
                    link::inband(version_request(version), PacketFlags(1), 0),
                    (old(ctx).log(), final(ctx).log()),
                    mid,
                    sent,
                ) && match sent {
                    Err(e) => final(self).link() == mid && r == Err::<bool, Error>(e),
                    Ok(_) => {
                        &&& final(self).link().channel == mid.channel
                        &&& final(self).link().send == mid.send
                        &&& answer_awaited(
                            (mid.recv, final(self).link().recv),
                            max_polls as nat,
                            r,
                        )
                    },
                },
    {
        let header = MessageHeader { message_type: MESSAGE_PROTOCOL_REQUEST };
        let mut payload = header.as_bytes();
        let body = MessageProtocolRequest { version };
        body.write_to(&mut payload);
        let sent = self.write_and_signal(ctx, payload.as_slice());
        let ghost mid = self.link;
        proof {
            assert(old(self).link().posted(
                link::inband(version_request(version), PacketFlags(1), 0),
                (old(ctx).log(), ctx.log()),
                mid,
                sent,
            ));
        }
        match sent {
            Ok(()) => {},
            Err(e) => return Err(e),
        }
        let ghost mut outs: Seq<Result<InPacket>> = Seq::empty();
        let mut i: usize = 0;
        while i < max_polls
            invariant
                old(ctx).ran_to(*ctx),
                i <= max_polls,
                self.wf(),
                self.link.channel == mid.channel,
                self.link.send == mid.send,
                mid.recv.read_run(RECV_BUFFER_SIZE as int, outs, self.link.recv),
                outs.len() == i,
                forall|j: int|
                    0 <= j < outs.len() ==> handshake_verdict(#[trigger] outs[j]) is None,
                old(self).link().posted(
                    link::inband(version_request(version), PacketFlags(1), 0),
                    (old(ctx).log(), ctx.log()),
                    mid,
                    sent,
                ),
                sent is Ok,
            decreases max_polls - i,
        {
            let ghost before = self.link.recv;
            let (next, out) = self.recv_next();
            proof {
                mid.recv.lemma_read_run_push(
                    RECV_BUFFER_SIZE as int,
                    outs,
                    before,
                    out@,
                    self.link.recv,
                );
                outs = outs.push(out@);
            }
            match next {
                Ok(Some(InboundPacket::ProtocolResponse(resp))) => {
                    proof {
                        lemma_answer_awaited(
                            (mid.recv, self.link.recv),
                            max_polls as nat,
                            Ok(resp.accepted != 0),
                            outs,
                        );
                    }
                    return Ok(resp.accepted != 0);
                },
                Ok(_) => {},
                Err(e) => {
                    proof {
                        lemma_answer_awaited((mid.recv, self.link.recv), max_polls as nat, Err(e), outs);
                    }
                    return Err(e);
                },
            }
            spin_once();
            i += 1;
        }
        proof {
            lemma_answer_awaited((mid.recv, self.link.recv), max_polls as nat, Err(Error::Timeout), outs);
        }
        Err(Error::Timeout)
    }

    /// Send a `MESSAGE_SET_LED_INDICATORS` packet. The host keyboard
    /// accepts (and discards) this.
    pub fn set_leds<C: HypercallTrait>(
        &mut self,
        ctx: &mut HvCtx<C>,
        led_flags: u16,
    ) -> (r: Result<()>)
        requires
            old(self).wf(),
        ensures
            old(ctx).ran_to(*final(ctx)),
            final(self).wf(),
            old(self).link().posted(
                link::inband(led_request(led_flags), PacketFlags(1), 0),
                (old(ctx).log(), final(ctx).log()),
                final(self).link(),
                r,
            ),
    {
        let header = MessageHeader { message_type: MESSAGE_SET_LED_INDICATORS };
        let mut payload = header.as_bytes();
        let body = MessageLedIndicatorsState { led_flags, padding: 0 };
        body.write_to(&mut payload);
        self.write_and_signal(ctx, payload.as_slice())
    }

    /// Drain `max_polls` reads of the recv ring, returning the count of
    /// `MESSAGE_EVENT` keystrokes observed.
    pub fn poll_keystrokes(&mut self, max_polls: usize) -> (r: Result<usize>)
        requires
            old(self).wf(),
        ensures
            final(self).wf(),
            final(self).link().channel == old(self).link().channel,
            final(self).link().send == old(self).link().send,
            keystrokes_drained(
                (old(self).link().recv, final(self).link().recv),
                max_polls as nat,
                r,
            ),
    {
        let ghost mut outs: Seq<Result<InPacket>> = Seq::empty();
        let mut count: usize = 0;
        let mut i: usize = 0;
        while i < max_polls
            invariant
                i <= max_polls,
                self.wf(),
                self.link.channel == old(self).link.channel,
                self.link.send == old(self).link.send,
                old(self).link().recv.read_run(
                    RECV_BUFFER_SIZE as int,
                    outs,
                    self.link.recv,
                ),
                outs.len() == i,
                forall|j: int| 0 <= j < outs.len() ==> drain_verdict(#[trigger] outs[j]) is None,
                count == keystrokes_in(outs),
                count <= i,
            decreases max_polls - i,
        {
            let ghost before = self.link.recv;
            let ghost seen = outs;
            let (next, out) = self.recv_next();
            proof {
                old(self).link().recv.lemma_read_run_push(
                    RECV_BUFFER_SIZE as int,
                    outs,
                    before,
                    out@,
                    self.link.recv,
                );
                outs = outs.push(out@);
                assert(outs.drop_last() =~= seen);
            }
            match next {
                Ok(Some(InboundPacket::Event(_))) => {
                    count += 1;
                },
                Ok(Some(_)) => {},
                Ok(None) => {
                    spin_once();
                },
                Err(e) => {
                    proof {
                        lemma_keystrokes_drained(
                            (old(self).link().recv, self.link.recv),
                            max_polls as nat,
                            Err(e),
                            outs,
                        );
                    }
                    return Err(e);
                },
            }
            i += 1;
        }
        proof {
            lemma_keystrokes_drained(
                (old(self).link().recv, self.link.recv),
                max_polls as nat,
                Ok(count),
                outs,
            );
        }
        Ok(count)
    }

    /// Recover the underlying [`Channel`] for closing.
    pub fn into_channel(self) -> (r: Channel)
        ensures
            r == self.link().channel,
    {
        self.link.channel
    }

    /// Reference to the underlying channel (useful for status checks
    /// and diagnostics).
    pub fn channel(&self) -> (r: &Channel)
        ensures
            *r == self.link().channel,
    {
        &self.link.channel
    }

    /// Send `payload` with a completion requested.
    fn write_and_signal<C: HypercallTrait>(
        &mut self,
        ctx: &mut HvCtx<C>,
        payload: &[u8],
    ) -> (r: Result<()>)
        requires
            old(self).wf(),
        ensures
            old(ctx).ran_to(*final(ctx)),
            final(self).wf(),
            old(self).link().posted(
                link::inband(payload@, PacketFlags(1), 0),
                (old(ctx).log(), final(ctx).log()),
                final(self).link(),
                r,
            ),
    {
        let mut flags = PacketFlags::new();
        flags.set_request_completion(true);
        proof {
            assert(0u16 | 0x1 == 1) by (bit_vector);
        }
        self.link.post(ctx, payload, flags, 0)
    }

    /// Read the next packet, if there is one, together with what the read
    /// of the ring gave.
    fn recv_next(&mut self) -> (r: (Result<Option<InboundPacket>>, Ghost<Result<InPacket>>))
        requires
            old(self).wf(),
        ensures
            final(self).wf(),
            final(self).link().channel == old(self).link().channel,
            final(self).link().send == old(self).link().send,
            old(self).link().recv.read_as(
                RECV_BUFFER_SIZE as int,
                final(self).link().recv,
                r.1@,
            ),
            r.0 == next_in(r.1@),
    {
        let mut buf: [u8; 264] = [0;264];
        match self.link.recv.read(&mut buf) {
            Ok(pkt) => {
                let parsed = parse_packet(pkt.payload);
                let ghost out: Result<InPacket> = Ok(
                    InPacket {
                        descriptor: pkt.descriptor,
                        ext_header: buf@.take(pkt.ext_header_len as int),
                        payload: pkt.payload@,
                    },
                );
                match parsed {
                    Ok(k) => (Ok(Some(k)), Ghost(out)),
                    Err(e) => (Err(e), Ghost(out)),
                }
            },
            Err(Error::RingEmpty) => (Ok(None), Ghost(Err(Error::RingEmpty))),
            Err(e) => (Err(e), Ghost(Err(e))),
        }
    }
}

} // verus!
