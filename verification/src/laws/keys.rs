//! The keyboard's messages, byte by byte.
use crate::devices::keyboard;
use crate::devices::keyboard::interface_guid;
use crate::devices::keyboard::parse_packet;
use crate::devices::keyboard::InboundPacket;
use crate::devices::keyboard::Keyboard;
use crate::devices::keyboard::MessageHeader;
use crate::devices::keyboard::MessageKeystroke;
use crate::devices::keyboard::MessageLedIndicatorsState;
use crate::devices::keyboard::MessageProtocolRequest;
use crate::devices::keyboard::MessageProtocolResponse;
use crate::devices::link;
use crate::devices::link::Link;
use crate::error::Error;
use crate::error::Result;
use crate::hypercalls::HvCtx;
use crate::hypercalls::HypercallTrait;
use crate::laws::decoding;
use crate::laws::layout;
use crate::packet::InPacket;
use crate::packet::OutPacket;
use crate::packet::QueuedPacket;
use crate::protocol::Guid;
use crate::protocol::PacketFlags;
use crate::ring::RecvRing;
use crate::ring::RingMem;
use crate::wire;
use crate::wire::Wire;
use vstd::prelude::*;

verus! {

/// Law: the keyboard is `f912ad6d-2b17-48ea-bd65-f927a61c7684`.
pub proof fn law_keyboard_interface(r: Guid)
    requires
        call_ensures(interface_guid, (), r),
    ensures
        r.data1 == 0xf912_ad6d,
        r.data2 == 0x2b17,
        r.data3 == 0x48ea,
        r.data4@ == seq![0xbdu8, 0x65, 0xf9, 0x27, 0xa6, 0x1c, 0x76, 0x84],
{
}

/// What a payload is to the keyboard: bytes 0 to 4 are the type of the
/// message. Type 2 is the answer to a version request, whose verdict stands
/// in bytes 4 to 8; type 3 a keystroke, with its code in bytes 4 to 6 and its
/// flags in bytes 8 to 12; anything else is passed on as its type and the
/// number of bytes behind it.
pub open spec fn reads_as(b: Seq<u8>, r: Result<InboundPacket>) -> bool {
    if b.len() < 4 {
        &&& r matches Ok(InboundPacket::Other { message_type, payload_len })
        &&& message_type == 0
        &&& payload_len == 0
    } else if layout::word32(b, 0) == 2 {
        if b.len() < 8 {
            r == Err::<InboundPacket, Error>(
                Error::Parse { ty: None, reason: "keyboard protocol response parse failed" },
            )
        } else {
            &&& r matches Ok(InboundPacket::ProtocolResponse(p))
            &&& p.accepted == layout::word32(b, 4)
        }
    } else if layout::word32(b, 0) == 3 {
        if b.len() < 12 {
            r == Err::<InboundPacket, Error>(
                Error::Parse { ty: None, reason: "keyboard event parse failed" },
            )
        } else {
            &&& r matches Ok(InboundPacket::Event(k))
            &&& k.make_code == layout::word16(b, 4)
            &&& k.padding == layout::word16(b, 6)
            &&& k.flags == layout::word32(b, 8)
        }
    } else {
        &&& r matches Ok(InboundPacket::Other { message_type, payload_len })
        &&& message_type == layout::word32(b, 0)
        &&& b.len() <= usize::MAX ==> payload_len == b.len() - 4
    }
}

proof fn lemma_packet_in(b: Seq<u8>)
    ensures
        reads_as(b, keyboard::packet_in(b)),
{
    if b.len() >= 4 {
        decoding::law_keyboard_message_header_decodes(b.take(4));
        let h = wire::decoded::<MessageHeader>(b.take(4));
        assert(b.subrange(0, 4) =~= b.take(4));
        layout::law_keyboard_message_header_layout(h, b, 0);
    }
    if b.len() >= 8 {
        decoding::law_keyboard_message_protocol_response_decodes(b.subrange(4, 8));
        let m = wire::decoded::<MessageProtocolResponse>(b.subrange(4, 8));
        layout::law_keyboard_message_protocol_response_layout(m, b, 4);
    }
    if b.len() >= 12 {
        decoding::law_keyboard_message_keystroke_decodes(b.subrange(4, 12));
        let m = wire::decoded::<MessageKeystroke>(b.subrange(4, 12));
        layout::law_keyboard_message_keystroke_layout(m, b, 4);
    }
}

/// Law: what a payload is to the keyboard follows from its bytes.
pub proof fn law_packet_parsed(payload: &[u8], r: Result<InboundPacket>)
    requires
        call_ensures(parse_packet, (payload,), r),
    ensures
        reads_as(payload@, r),
{
    lemma_packet_in(payload@);
    wire::lemma_slice_len(payload);
}

/// Law: an answer to a version request that was encoded is parsed back as it
/// was, whatever follows it.
pub proof fn law_response_round_trip(
    m: MessageProtocolResponse,
    header: Vec<u8>,
    body: Vec<u8>,
    rest: Seq<u8>,
    payload: &[u8],
    r: Result<InboundPacket>,
)
    requires
        call_ensures(
            <MessageHeader as Wire>::as_bytes,
            (&(MessageHeader { message_type: 2 }),),
            header,
        ),
        call_ensures(<MessageProtocolResponse as Wire>::as_bytes, (&m,), body),
        payload@ == header@ + body@ + rest,
        call_ensures(parse_packet, (payload,), r),
    ensures
        r == Ok::<InboundPacket, Error>(InboundPacket::ProtocolResponse(m)),
{
    let h = MessageHeader { message_type: 2 };
    h.lemma_wire_len();
    m.lemma_wire_len();
    let b = payload@;
    assert(b.subrange(0, 4) =~= h.wire());
    assert(b.take(4) =~= h.wire());
    assert(b.subrange(4, 8) =~= m.wire());
    wire::lemma_decoded(h);
    wire::lemma_decoded(m);
    layout::law_keyboard_message_header_layout(h, b, 0);
    lemma_packet_in(b);
}

/// Law: a keystroke that was encoded is parsed back as it was, whatever
/// follows it.
pub proof fn law_keystroke_round_trip(
    m: MessageKeystroke,
    header: Vec<u8>,
    body: Vec<u8>,
    rest: Seq<u8>,
    payload: &[u8],
    r: Result<InboundPacket>,
)
    requires
        call_ensures(
            <MessageHeader as Wire>::as_bytes,
            (&(MessageHeader { message_type: 3 }),),
            header,
        ),
        call_ensures(<MessageKeystroke as Wire>::as_bytes, (&m,), body),
        payload@ == header@ + body@ + rest,
        call_ensures(parse_packet, (payload,), r),
    ensures
        r == Ok::<InboundPacket, Error>(InboundPacket::Event(m)),
{
    let h = MessageHeader { message_type: 3 };
    h.lemma_wire_len();
    m.lemma_wire_len();
    let b = payload@;
    assert(b.subrange(0, 4) =~= h.wire());
    assert(b.take(4) =~= h.wire());
    assert(b.subrange(4, 12) =~= m.wire());
    wire::lemma_decoded(h);
    wire::lemma_decoded(m);
    layout::law_keyboard_message_header_layout(h, b, 0);
    lemma_packet_in(b);
}

/// The packet is an inband one with these flags and this transaction id.
pub open spec fn inband(p: OutPacket, flags: int, tid: int) -> bool {
    &&& p.packet_type.0 == 6
    &&& p.ext_header.len() == 0
    &&& p.verbatim is None
    &&& p.flags.0 == flags
    &&& p.transaction_id == tid
}

/// Law: setting the LEDs posts one packet of eight bytes: type 4, the LEDs,
/// and zeros.
pub proof fn law_leds_set<M: RingMem, C: HypercallTrait>(
    keyboard: &mut Keyboard<M>,
    ctx: &mut HvCtx<C>,
    led_flags: u16,
    r: Result<()>,
) -> (p: OutPacket)
    requires
        call_ensures(Keyboard::<M>::set_leds::<C>, (keyboard, ctx, led_flags), r),
    ensures
        old(keyboard).link().posted(
            p,
            (old(ctx).log(), final(ctx).log()),
            final(keyboard).link(),
            r,
        ),
        inband(p, 1, 0),
        p.payload.len() == 8,
        layout::word32(p.payload, 0) == 4,
        layout::word16(p.payload, 4) == led_flags,
        layout::word16(p.payload, 6) == 0,
{
    let b = keyboard::led_request(led_flags);
    let h = MessageHeader { message_type: 4 };
    let m = MessageLedIndicatorsState { led_flags, padding: 0 };
    h.lemma_wire_len();
    m.lemma_wire_len();
    assert(b.subrange(0, 4) =~= h.wire());
    assert(b.subrange(4, 8) =~= m.wire());
    layout::law_keyboard_message_header_layout(h, b, 0);
    layout::law_keyboard_message_led_indicators_state_layout(m, b, 4);
    link::inband(b, PacketFlags(1), 0)
}

/// A read that ends the wait for an answer: a failure, an answer, or a packet
/// that is cut short.
pub open spec fn ends_wait(o: Result<InPacket>) -> bool {
    match o {
        Err(e) => e != Error::RingEmpty,
        Ok(p) => p.payload.len() >= 4 && (layout::word32(p.payload, 0) == 2
            || layout::word32(p.payload, 0) == 3
            && p.payload.len() < 12),
    }
}

/// The wait for an answer went like this: packets are read one by one, no more
/// than `limit` times, until one ends the wait; an answer says yes if bytes 4
/// to 8 are not zero.
pub open spec fn awaits<M: RingMem>(
    recv: (RecvRing<M>, RecvRing<M>),
    limit: nat,
    r: Result<bool>,
) -> bool {
    exists|outs: Seq<Result<InPacket>>|
        {
            &&& #[trigger] recv.0.read_run(264, outs, recv.1)
            &&& outs.len() <= limit
            &&& forall|i: int| 0 <= i < outs.len() - 1 ==> !ends_wait(#[trigger] outs[i])
            &&& match r {
                Ok(yes) => {
                    &&& outs.len() > 0
                    &&& outs.last() is Ok
                    &&& outs.last()->Ok_0.payload.len() >= 8
                    &&& layout::word32(outs.last()->Ok_0.payload, 0) == 2
                    &&& yes <==> layout::word32(outs.last()->Ok_0.payload, 4) != 0
                },
                Err(e) => {
                    ||| {
                        &&& outs.len() > 0
                        &&& ends_wait(outs.last())
                        &&& match outs.last() {
                            Err(x) => e == x,
                            Ok(p) => e is Parse && p.payload.len() < 12,
                        }
                    }
                    ||| {
                        &&& e == Error::Timeout
                        &&& outs.len() == limit
                        &&& outs.len() > 0 ==> !ends_wait(outs.last())
                    }
                },
            }
        }
}

proof fn lemma_awaits<M: RingMem>(recv: (RecvRing<M>, RecvRing<M>), limit: nat, r: Result<bool>)
    requires
        keyboard::answer_awaited(recv, limit, r),
    ensures
        awaits(recv, limit, r),
{
    let outs = choose|outs: Seq<Result<InPacket>>|
        {
            &&& #[trigger] recv.0.read_run(264, outs, recv.1)
            &&& link::stops(outs, |o| keyboard::handshake_verdict(o), limit, Some(r)) || (r == Err::<
                bool,
                Error,
            >(Error::Timeout) && link::stops(
                outs,
                |o| keyboard::handshake_verdict(o),
                limit,
                None,
            ))
        };
    assert forall|i: int| 0 <= i < outs.len() - 1 implies !ends_wait(#[trigger] outs[i]) by {
        law_answer_weighed(outs[i]);
        assert(keyboard::handshake_verdict(outs[i]) is None);
    }
    if outs.len() > 0 {
        law_answer_weighed(outs.last());
        assert(outs.last() == outs[outs.len() - 1]);
        if !link::stops(outs, |o| keyboard::handshake_verdict(o), limit, Some(r)) {
            assert(keyboard::handshake_verdict(outs[outs.len() - 1]) is None);
        }
    }
    assert(recv.0.read_run(264, outs, recv.1));
}

/// Law: a version is asked for by one packet of eight bytes, type 1 and the
/// version. Of the packets that then come in, one by one, the first answer
/// decides; a packet that makes no sense ends the wait; and if none comes,
/// the wait times out.
pub proof fn law_version_asked<M: RingMem, C: HypercallTrait>(
    keyboard: &mut Keyboard<M>,
    ctx: &mut HvCtx<C>,
    version: u32,
    max_polls: usize,
    r: Result<bool>,
)
    requires
        call_ensures(
            Keyboard::<M>::negotiate_version::<C>,
            (keyboard, ctx, version, max_polls),
            r,
        ),
    ensures
        exists|p: OutPacket, mid: Link<M>, sent: Result<()>|
            {
                &&& #[trigger] old(keyboard).link().posted(
                    p,
                    (old(ctx).log(), final(ctx).log()),
                    mid,
                    sent,
                )
                &&& inband(p, 1, 0)
                &&& p.payload.len() == 8
                &&& layout::word32(p.payload, 0) == 1
                &&& layout::word32(p.payload, 4) == version
                &&& sent matches Err(e) ==> r == Err::<bool, Error>(e)
                &&& sent is Ok ==> awaits(
                    (mid.recv, final(keyboard).link().recv),
                    max_polls as nat,
                    r,
                )
            },
{
    let b = keyboard::version_request(version);
    let h = MessageHeader { message_type: 1 };
    let m = MessageProtocolRequest { version };
    h.lemma_wire_len();
    m.lemma_wire_len();
    assert(b.subrange(0, 4) =~= h.wire());
    assert(b.subrange(4, 8) =~= m.wire());
    layout::law_keyboard_message_header_layout(h, b, 0);
    layout::law_keyboard_message_protocol_request_layout(m, b, 4);
    let p = link::inband(b, PacketFlags(1), 0);
    let log = (old(ctx).log(), final(ctx).log());
    let (mid, sent) = choose|mid: Link<M>, sent: Result<()>| #[trigger]
        old(keyboard).link().posted(p, log, mid, sent) && match sent {
            Err(e) => final(keyboard).link() == mid && r == Err::<bool, Error>(e),
            Ok(_) => {
                &&& final(keyboard).link().channel == mid.channel
                &&& final(keyboard).link().send == mid.send
                &&& keyboard::answer_awaited(
                    (mid.recv, final(keyboard).link().recv),
                    max_polls as nat,
                    r,
                )
            },
        };
    if sent is Ok {
        lemma_awaits((mid.recv, final(keyboard).link().recv), max_polls as nat, r);
    }
    assert(old(keyboard).link().posted(p, log, mid, sent));
}

/// Law: of what a read of the ring gives, an answer of at least eight bytes
/// decides a version request, by whether bytes 4 to 8 are zero; one that is
/// cut short ends it, as does a failure; an empty ring and everything else
/// are passed over.
pub proof fn law_answer_weighed(out: Result<InPacket>)
    ensures
        ({
            let v = keyboard::handshake_verdict(out);
            match out {
                Err(Error::RingEmpty) => v is None,
                Err(e) => v == Some(Err::<bool, Error>(e)),
                Ok(p) => {
                    let b = p.payload;
                    if b.len() >= 4 && layout::word32(b, 0) == 2 {
                        if b.len() >= 8 {
                            v == Some(Ok::<bool, Error>(layout::word32(b, 4) != 0))
                        } else {
                            v == Some(Err::<bool, Error>(Error::Parse { ty: None, reason: "keyboard protocol response parse failed" }))
                        }
                    } else if b.len() >= 4 && layout::word32(b, 0) == 3 && b.len() < 12 {
                        v == Some(Err::<bool, Error>(Error::Parse { ty: None, reason: "keyboard event parse failed" }))
                    } else {
                        v is None
                    }
                },
            }
        }),
{
    if out is Ok {
        lemma_packet_in(out->Ok_0.payload);
    }
}

/// Law: one read more counts one keystroke more exactly if it gave a packet
/// of type 3 with at least twelve bytes.
pub proof fn law_keystroke_counted(outs: Seq<Result<InPacket>>, out: Result<InPacket>)
    ensures
        keyboard::keystrokes_in(Seq::<Result<InPacket>>::empty()) == 0,
        keyboard::keystrokes_in(outs.push(out)) == keyboard::keystrokes_in(outs) + (if out
            matches Ok(p) && p.payload.len() >= 12 && layout::word32(p.payload, 0) == 3 {
            1int
        } else {
            0
        }),
{
    assert(outs.push(out).drop_last() =~= outs);
    if out is Ok {
        lemma_packet_in(out->Ok_0.payload);
    }
}

/// Law: the same of the packets that wait in a ring, whose payload starts
/// where the descriptor says.
pub proof fn law_keystroke_waits(ps: Seq<QueuedPacket>, p: QueuedPacket)
    ensures
        keyboard::keystrokes_queued(Seq::<QueuedPacket>::empty()) == 0,
        ({
            let b = p.body.skip(p.descriptor.data_offset8 * 8 - 16);
            keyboard::keystrokes_queued(ps.push(p)) == keyboard::keystrokes_queued(ps) + (if b.len()
                >= 12 && layout::word32(b, 0) == 3 {
                1int
            } else {
                0
            })
        }),
{
    assert(ps.push(p).drop_last() =~= ps);
    lemma_packet_in(p.received().payload);
}

/// Law: a drain counts the keystrokes among what it read; it ends early
/// exactly where a read fails or a packet is cut short.
pub proof fn law_keystrokes_polled<M: RingMem>(
    keyboard: &mut Keyboard<M>,
    max_polls: usize,
    r: Result<usize>,
)
    requires
        call_ensures(Keyboard::<M>::poll_keystrokes, (keyboard, max_polls), r),
    ensures
        final(keyboard).link().channel == old(keyboard).link().channel,
        final(keyboard).link().send == old(keyboard).link().send,
        exists|outs: Seq<Result<InPacket>>|
            {
                &&& #[trigger] old(keyboard).link().recv.read_run(
                    264,
                    outs,
                    final(keyboard).link().recv,
                )
                &&& outs.len() <= max_polls
                &&& r matches Ok(n) ==> outs.len() == max_polls && n == keyboard::keystrokes_in(
                    outs,
                )
                &&& r is Err ==> outs.len() > 0 && (match outs.last() {
                    Err(e) => e != Error::RingEmpty && r == Err::<usize, Error>(e),
                    Ok(p) => {
                        &&& p.payload.len() >= 4
                        &&& layout::word32(p.payload, 0) == 2 && p.payload.len() < 8 || layout::word32(
                            p.payload,
                            0,
                        ) == 3 && p.payload.len() < 12
                    },
                })
            },
{
    let recv = (old(keyboard).link().recv, final(keyboard).link().recv);
    let outs = choose|outs: Seq<Result<InPacket>>|
        {
            &&& #[trigger] recv.0.read_run(264, outs, recv.1)
            &&& match r {
                Ok(count) => {
                    &&& link::stops(
                        outs,
                        |o| keyboard::drain_verdict(o),
                        max_polls as nat,
                        None,
                    )
                    &&& count == keyboard::keystrokes_in(outs)
                },
                Err(e) => link::stops(
                    outs,
                    |o| keyboard::drain_verdict(o),
                    max_polls as nat,
                    Some(e),
                ),
            }
        };
    if r is Err {
        assert(keyboard::drain_verdict(outs.last()) is Some);
        if outs.last() is Ok {
            lemma_packet_in(outs.last()->Ok_0.payload);
        }
    }
    assert(recv.0.read_run(264, outs, recv.1));
}

} // verus!
