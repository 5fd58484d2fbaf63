//! Opening, signalling and closing channels.
use crate::channel;
use crate::channel::close_channel;
use crate::channel::close_channel_with;
use crate::channel::encode_open_channel;
use crate::channel::open_channel;
use crate::channel::open_channel_with;
use crate::channel::Channel;
use crate::channel::ChannelState;
use crate::connection::ConnectionState;
use crate::connection::MessagePump;
use crate::devices::netvsp;
use crate::error::Error;
use crate::error::Result;
use crate::gpadl::GpadlHandle;
use crate::hvsock::ConnectResultHandler;
use crate::hvsock::HandlerSink;
use crate::hypercalls::HvCtx;
use crate::hypercalls::HvEvent;
use crate::hypercalls::HypercallTrait;
use crate::laws::decoding;
use crate::laws::layout;
use crate::laws::messages;
use crate::message;
use crate::message::CompletionKey;
use crate::message::CompletionTable;
use crate::message::MessageSink;
use crate::protocol;
use crate::protocol::ChannelId;
use crate::protocol::CloseChannel;
use crate::protocol::FeatureFlags;
use crate::protocol::GpadlId;
use crate::protocol::MessageType;
use crate::protocol::OfferChannel;
use crate::protocol::OpenChannel2;
use crate::protocol::OpenChannelFlags;
use crate::protocol::OpenResult;
use crate::protocol::RelIdReleased;
use crate::protocol::UserDefinedData;
use crate::state::IdCounter;
use crate::state::VmbusState;
use crate::wire;
use crate::wire::Wire;
use vstd::prelude::*;

verus! {

/// The bytes of a request to open a channel. Where one of the two lowest
/// feature flags was agreed on, the signal parameters follow at the end.
pub open spec fn open_message(
    p: Seq<u8>,
    channel_id: ChannelId,
    open_id: u32,
    ring_gpadl: GpadlId,
    target_vp: u32,
    page_offset: int,
    connection_id: u32,
    event_flag: u16,
    flags: OpenChannelFlags,
    negotiated: FeatureFlags,
) -> bool {
    &&& layout::word32(p, 0) == 5
    &&& layout::word32(p, 4) == 0
    &&& layout::word32(p, 8) == channel_id.0
    &&& layout::word32(p, 12) == open_id
    &&& layout::word32(p, 16) == ring_gpadl.0
    &&& layout::word32(p, 20) == target_vp
    &&& layout::word32(p, 24) == page_offset
    &&& forall|i: int| 28 <= i < 148 ==> #[trigger] p[i] == 0
    &&& if negotiated.0 % 4 == 0 {
        p.len() == 148
    } else {
        &&& p.len() == 156
        &&& layout::word32(p, 148) == connection_id
        &&& layout::word16(p, 152) == event_flag
        &&& layout::word16(p, 154) == flags.0
    }
}

proof fn lemma_open_message(
    p: Seq<u8>,
    channel_id: ChannelId,
    open_id: u32,
    ring_gpadl: GpadlId,
    target_vp: u32,
    page_offset: u32,
    connection_id: u32,
    event_flag: u16,
    flags: OpenChannelFlags,
    negotiated: FeatureFlags,
)
    requires
        p == channel::open_bytes(
            channel::open_request(channel_id, open_id, ring_gpadl, target_vp, page_offset),
            connection_id,
            event_flag,
            flags,
            negotiated,
        ),
    ensures
        open_message(
            p,
            channel_id,
            open_id,
            ring_gpadl,
            target_vp,
            page_offset as int,
            connection_id,
            event_flag,
            flags,
            negotiated,
        ),
{
    let base = channel::open_request(channel_id, open_id, ring_gpadl, target_vp, page_offset);
    let bits = negotiated.0;
    assert((bits & 0x1 != 0 || bits & 0x2 != 0) == (bits % 4 != 0)) by (bit_vector);
    base.lemma_wire_len();
    decoding::law_user_defined_data_decodes(wire::zeros(120));
    let zero = wire::decoded::<UserDefinedData>(wire::zeros(120));
    if bits % 4 != 0 {
        let m = OpenChannel2 { open_channel: base, connection_id, event_flag, flags };
        m.lemma_wire_len();
        messages::lemma_message(m, p);
        layout::law_open_channel2_layout(m, p, 8);
    } else {
        messages::lemma_message(base, p);
        layout::law_open_channel_layout(base, p, 8);
    }
    assert forall|i: int| 28 <= i < 148 implies #[trigger] p[i] == 0 by {
        assert(zero.wire()[i - 28] == 0);
        assert(base.user_data.0@[i - 28] == p[28 + (i - 28)]);
    }
}

/// Law: a request to open a channel is of type 5 and names, one after the
/// other from byte 8 on, the channel, the request, the GPADL of the ring, the
/// processor and the page at which the second ring starts.
pub proof fn law_open_encoded(
    channel_id: ChannelId,
    open_id: u32,
    ring_gpadl: GpadlId,
    target_vp: u32,
    page_offset: u32,
    connection_id: u32,
    event_flag: u16,
    flags: OpenChannelFlags,
    negotiated: FeatureFlags,
    r: Vec<u8>,
)
    requires
        call_ensures(
            encode_open_channel,
            (
                channel_id,
                open_id,
                ring_gpadl,
                target_vp,
                page_offset,
                connection_id,
                event_flag,
                flags,
                negotiated,
            ),
            r,
        ),
    ensures
        open_message(
            r@,
            channel_id,
            open_id,
            ring_gpadl,
            target_vp,
            page_offset as int,
            connection_id,
            event_flag,
            flags,
            negotiated,
        ),
{
    lemma_open_message(
        r@,
        channel_id,
        open_id,
        ring_gpadl,
        target_vp,
        page_offset,
        connection_id,
        event_flag,
        flags,
        negotiated,
    );
}

/// Opening a channel for request `open_id` posted what the arguments ask for
/// and came to `r`. The ring for receiving starts behind the control page and
/// the data pages of the ring for sending; interrupts are switched off.
pub open spec fn opens(
    state: ConnectionState,
    open_id: u32,
    channel_id: ChannelId,
    ring_gpadl: GpadlHandle,
    send_data_pages: u32,
    connection_id: u32,
    event_flag: u16,
    log: (Seq<HvEvent>, Seq<HvEvent>),
    r: Result<Channel>,
) -> bool {
    let n = log.0.len() as int;
    &&& log.0.is_prefix_of(log.1)
    &&& log.1.len() > n
    &&& log.1[n] matches HvEvent::Posted { connection_id: to, payload, result, .. }
    &&& to == state.post_message_connection_id
    &&& open_message(
        payload,
        channel_id,
        open_id,
        ring_gpadl.gpadl_id,
        0xffff_ffff,
        1 + send_data_pages,
        connection_id,
        event_flag,
        OpenChannelFlags(0),
        state.feature_flags,
    )
    &&& match result {
        Err(e) => log.1.len() == n + 1 && r == Err::<Channel, Error>(e),
        Ok(_) => {
            &&& log.1.len() == n + 2
            &&& log.1[n + 1] matches HvEvent::Polled { key, result, response, .. }
            &&& key == CompletionKey::OpenChannelResult(open_id)
            &&& result matches Err(e) ==> r == Err::<Channel, Error>(e)
            &&& r is Ok <==> {
                &&& result is Ok
                &&& response is Some
                &&& response->0.len() >= 20
                &&& layout::word32(response->0, 0) == 6
                &&& layout::word32(response->0, 16) == 0
            }
            &&& result is Ok && response is None ==> r == Err::<Channel, Error>(Error::Timeout)
            &&& result is Ok && response is Some && response->0.len() >= 20
                && layout::word32(response->0, 0) == 6
                && layout::word32(response->0, 16) != 0 ==> r == Err::<Channel, Error>(
                Error::Parse {
                    ty: Some(MessageType(6)),
                    reason: "host returned non-success OpenResult status",
                },
            )
        },
    }
    &&& r matches Ok(c) ==> {
        &&& c.channel_id == channel_id
        &&& c.open_id == open_id
        &&& c.ring_gpadl == ring_gpadl
        &&& c.connection_id == connection_id
        &&& c.event_flag == event_flag
        &&& c.state == ChannelState::Open
    }
}

proof fn lemma_open_answer(b: Seq<u8>)
    ensures
        message::parsed::<OpenResult>(b) is Ok <==> b.len() >= 20 && layout::word32(b, 0) == 6,
        message::parsed::<OpenResult>(b) matches Ok(m) ==> m.status == layout::word32(b, 16),
{
    messages::lemma_parsed::<OpenResult>(b);
    if b.len() >= 20 && layout::word32(b, 0) == 6 {
        decoding::law_open_result_decodes(b.subrange(8, 20));
        layout::law_open_result_layout(wire::decoded::<OpenResult>(b.subrange(8, 20)), b, 8);
    }
}

/// Law: opening a channel posts a request whose page offset is one more than
/// the data pages of the ring for sending, and gives a channel exactly if the
/// host answers with status zero. For the ring region of a network device,
/// that page is where the ring for receiving starts.
pub proof fn law_opened<
    C: HypercallTrait,
    P: MessagePump,
    S: MessageSink,
    H: ConnectResultHandler,
>(
    ctx: &mut HvCtx<C>,
    connection: Option<ConnectionState>,
    open_ids: &mut IdCounter,
    table: &mut CompletionTable,
    pump: &mut P,
    sink: &mut HandlerSink<S, H>,
    offer: &OfferChannel,
    ring_gpadl: GpadlHandle,
    send_data_pages: u32,
    connection_id: u32,
    event_flag: u16,
    r: Result<Channel>,
)
    requires
        send_data_pages < u32::MAX,
        call_ensures(
            open_channel_with::<C, P, S, H>,
            (
                ctx,
                connection,
                open_ids,
                table,
                pump,
                sink,
                offer,
                ring_gpadl,
                send_data_pages,
                connection_id,
                event_flag,
            ),
            r,
        ),
    ensures
        match connection {
            None => {
                &&& r == Err::<Channel, Error>(Error::VersionMismatch)
                &&& final(ctx).log() == old(ctx).log()
                &&& final(open_ids).next == old(open_ids).next
            },
            Some(state) => {
                &&& opens(
                    state,
                    old(open_ids).next,
                    offer.channel_id,
                    ring_gpadl,
                    send_data_pages,
                    connection_id,
                    event_flag,
                    (old(ctx).log(), final(ctx).log()),
                    r,
                )
                &&& send_data_pages == netvsp::RING_DATA_PAGES ==> 4096 * layout::word32(
                    final(ctx).log()[old(ctx).log().len() as int]->Posted_payload,
                    24,
                ) == netvsp::RECV_CTRL_OFFSET
                &&& old(open_ids).next < u32::MAX ==> final(open_ids).next == old(open_ids).next
                    + 1
            },
        },
{
    if connection is Some {
        let state = connection->0;
        let n = old(ctx).log().len() as int;
        let ev = final(ctx).log().skip(n);
        lemma_open_message(
            ev[0]->Posted_payload,
            offer.channel_id,
            old(open_ids).next,
            ring_gpadl.gpadl_id,
            0xffff_ffff,
            (1 + send_data_pages) as u32,
            connection_id,
            event_flag,
            OpenChannelFlags(0),
            state.feature_flags,
        );
        assert(ev[0] == final(ctx).log()[n]);
        if ev.len() > 1 {
            assert(ev[1] == final(ctx).log()[n + 1]);
            if ev[1]->Polled_response is Some {
                lemma_open_answer(ev[1]->Polled_response->0);
            }
        }
    }
}

/// Law: the same of the guest's own state, where the request has the next
/// open id.
pub proof fn law_opened_over<C: HypercallTrait, H: ConnectResultHandler>(
    ctx: &mut HvCtx<C>,
    state: &mut VmbusState<H>,
    offer: &OfferChannel,
    ring_gpadl: GpadlHandle,
    send_data_pages: u32,
    connection_id: u32,
    event_flag: u16,
    r: Result<Channel>,
)
    requires
        send_data_pages < u32::MAX,
        call_ensures(
            open_channel::<C, H>,
            (ctx, state, offer, ring_gpadl, send_data_pages, connection_id, event_flag),
            r,
        ),
    ensures
        if old(state).synic is None || old(state).connection is None {
            &&& r == Err::<Channel, Error>(Error::VersionMismatch)
            &&& final(ctx).log() == old(ctx).log()
        } else {
            &&& opens(
                old(state).connection->0,
                old(state).open_ids.next,
                offer.channel_id,
                ring_gpadl,
                send_data_pages,
                connection_id,
                event_flag,
                (old(ctx).log(), final(ctx).log()),
                r,
            )
            &&& old(state).open_ids.next < u32::MAX
                ==> final(state).open_ids.next == old(state).open_ids.next + 1
        },
        final(state).connection == old(state).connection,
        final(state).synic == old(state).synic,
        final(state).gpadl_ids.next == old(state).gpadl_ids.next,
{
    if old(state).synic is Some && old(state).connection is Some {
        lemma_opens(
            (*old(state), *final(state)),
            (old(ctx).log(), final(ctx).log()),
            offer.channel_id,
            ring_gpadl,
            send_data_pages,
            connection_id,
            event_flag,
            r,
        );
    }
}

/// Opening a channel over the guest's state, byte by byte.
pub(crate) proof fn lemma_opens<H: ConnectResultHandler>(
    state: (VmbusState<H>, VmbusState<H>),
    log: (Seq<HvEvent>, Seq<HvEvent>),
    channel_id: ChannelId,
    ring_gpadl: GpadlHandle,
    send_data_pages: u32,
    connection_id: u32,
    event_flag: u16,
    r: Result<Channel>,
)
    requires
        send_data_pages < u32::MAX,
        channel::opened_over(
            state,
            log,
            channel_id,
            ring_gpadl,
            send_data_pages,
            connection_id,
            event_flag,
            r,
        ),
        state.0.synic is Some,
        state.0.connection is Some,
    ensures
        opens(
            state.0.connection->0,
            state.0.open_ids.next,
            channel_id,
            ring_gpadl,
            send_data_pages,
            connection_id,
            event_flag,
            log,
            r,
        ),
{
    let n = log.0.len() as int;
    let ev = log.1.skip(n);
    lemma_open_message(
        ev[0]->Posted_payload,
        channel_id,
        state.0.open_ids.next,
        ring_gpadl.gpadl_id,
        0xffff_ffff,
        (1 + send_data_pages) as u32,
        connection_id,
        event_flag,
        OpenChannelFlags(0),
        state.0.connection->0.feature_flags,
    );
    assert(ev[0] == log.1[n]);
    if ev.len() > 1 {
        assert(ev[1] == log.1[n + 1]);
        if ev[1]->Polled_response is Some {
            lemma_open_answer(ev[1]->Polled_response->0);
        }
    }
}

/// The event posts a message of type `ty` about `channel_id`.
pub open spec fn posts_about(ev: HvEvent, to: u32, ty: int, channel_id: ChannelId) -> bool {
    &&& ev matches HvEvent::Posted { connection_id, payload, .. }
    &&& connection_id == to
    &&& payload.len() == 12
    &&& layout::word32(payload, 0) == ty
    &&& layout::word32(payload, 4) == 0
    &&& layout::word32(payload, 8) == channel_id.0
}

/// Closing `channel` posted this and came to `r`: a close, of type 7, unless
/// the host took the channel back, and a release of its id, of type 13.
pub open spec fn closes(
    to: u32,
    channel: Channel,
    log: (Seq<HvEvent>, Seq<HvEvent>),
    r: Result<()>,
) -> bool {
    let n = log.0.len() as int;
    &&& log.0.is_prefix_of(log.1)
    &&& log.1.len() > n
    &&& if channel.state == ChannelState::Rescinded {
        &&& log.1.len() == n + 1
        &&& posts_about(log.1[n], to, 13, channel.channel_id)
        &&& log.1[n]->Posted_result == r
    } else {
        &&& posts_about(log.1[n], to, 7, channel.channel_id)
        &&& match log.1[n]->Posted_result {
            Err(e) => log.1.len() == n + 1 && r == Err::<(), Error>(e),
            Ok(_) => {
                &&& log.1.len() == n + 2
                &&& posts_about(log.1[n + 1], to, 13, channel.channel_id)
                &&& log.1[n + 1]->Posted_result == r
            },
        }
    }
}

pub(crate) proof fn lemma_close_messages(channel_id: ChannelId)
    ensures
        ({
            let p = protocol::message_bytes(CloseChannel { channel_id });
            &&& p.len() == 12
            &&& layout::word32(p, 0) == 7
            &&& layout::word32(p, 4) == 0
            &&& layout::word32(p, 8) == channel_id.0
        }),
        ({
            let p = protocol::message_bytes(RelIdReleased { channel_id });
            &&& p.len() == 12
            &&& layout::word32(p, 0) == 13
            &&& layout::word32(p, 4) == 0
            &&& layout::word32(p, 8) == channel_id.0
        }),
{
    let a = CloseChannel { channel_id };
    let b = RelIdReleased { channel_id };
    a.lemma_wire_len();
    b.lemma_wire_len();
    messages::lemma_message(a, protocol::message_bytes(a));
    messages::lemma_message(b, protocol::message_bytes(b));
    layout::law_close_channel_layout(a, protocol::message_bytes(a), 8);
    layout::law_rel_id_released_layout(b, protocol::message_bytes(b), 8);
}

/// Law: closing a channel tells the host to close it and then releases its
/// id; one that the host took back is only released.
pub proof fn law_closed<C: HypercallTrait>(
    ctx: &mut HvCtx<C>,
    connection: Option<ConnectionState>,
    channel: Channel,
    r: Result<()>,
)
    requires
        call_ensures(close_channel_with::<C>, (ctx, connection, channel), r),
    ensures
        match connection {
            None => r == Err::<(), Error>(Error::VersionMismatch) && final(ctx).log() == old(ctx).log(),
            Some(state) => closes(
                state.post_message_connection_id,
                channel,
                (old(ctx).log(), final(ctx).log()),
                r,
            ),
        },
{
    lemma_close_messages(channel.channel_id);
    if connection is Some {
        let n = old(ctx).log().len() as int;
        let ev = final(ctx).log().skip(n);
        assert(ev[0] == final(ctx).log()[n]);
        if ev.len() > 1 {
            assert(ev[1] == final(ctx).log()[n + 1]);
        }
    }
}

/// Law: the same of the guest's own state.
pub proof fn law_closed_over<C: HypercallTrait, H: ConnectResultHandler>(
    ctx: &mut HvCtx<C>,
    state: &VmbusState<H>,
    channel: Channel,
    r: Result<()>,
)
    requires
        call_ensures(close_channel::<C, H>, (ctx, state, channel), r),
    ensures
        match state.connection {
            None => r == Err::<(), Error>(Error::VersionMismatch) && final(ctx).log() == old(ctx).log(),
            Some(agreed) => closes(
                agreed.post_message_connection_id,
                channel,
                (old(ctx).log(), final(ctx).log()),
                r,
            ),
        },
{
    lemma_close_messages(channel.channel_id);
    if state.connection is Some {
        let n = old(ctx).log().len() as int;
        let ev = final(ctx).log().skip(n);
        assert(ev[0] == final(ctx).log()[n]);
        if ev.len() > 1 {
            assert(ev[1] == final(ctx).log()[n + 1]);
        }
    }
}

/// Law: signalling an open channel makes one fast hypercall `0x5d` that names
/// the channel's connection and flag 0; any other channel is not signalled.
pub proof fn law_channel_signalled<C: HypercallTrait>(
    channel: &Channel,
    ctx: &mut HvCtx<C>,
    r: Result<()>,
)
    requires
        call_ensures(Channel::signal::<C>, (channel, ctx), r),
    ensures
        channel.state != ChannelState::Open ==> {
            &&& r == Err::<(), Error>(Error::Rescinded)
            &&& final(ctx).log() == old(ctx).log()
        },
        channel.state == ChannelState::Open ==> {
            &&& final(ctx).log().len() == old(ctx).log().len() + 1
            &&& final(ctx).log().drop_last() == old(ctx).log()
            &&& final(ctx).log().last() matches HvEvent::Call(c)
            &&& c.code == 0x5d
            &&& c.fast_call
            &&& c.input.len() == 8
            &&& layout::word32(c.input, 0) == channel.connection_id
            &&& layout::word32(c.input, 4) == 0
            &&& r is Ok <==> c.reply is Ok
        },
{
    if channel.state == ChannelState::Open {
        let m = crate::hv::SignalEvent {
            connection_id: channel.connection_id,
            flag_number: 0,
            rsvd: 0,
        };
        m.lemma_wire_len();
        let input = final(ctx).log().last()->Call_0.input;
        assert(input.subrange(0, 8) =~= input);
        layout::law_hv_signal_event_layout(m, input, 0);
    }
}

/// Law: ids are handed out one after the other, from 1 on.
pub proof fn law_ids(start: IdCounter, ids: &mut IdCounter, r: u32)
    requires
        call_ensures(IdCounter::new, (), start),
        call_ensures(IdCounter::allocate, (ids,), r),
    ensures
        start.next == 1,
        r == old(ids).next,
        old(ids).next < u32::MAX ==> final(ids).next == r + 1,
        old(ids).next == u32::MAX ==> final(ids).next == 0,
{
}

} // verus!
