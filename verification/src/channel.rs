//! Channel lifecycle: [`open_channel_with`] / [`close_channel_with`] and
//! `RelIdReleased` cleanup.
//!
//! Ring-buffer memory ownership belongs to the caller: [`Channel`]
//! records the GPADL handle it was opened over but does **not**
//! allocate or free the pages.
//!
//! If you close a channel you must also tear down its GPADL via
//! [`crate::gpadl::teardown_gpadl_with`] and free the backing pages
//! yourself.
use crate::connection;
use crate::connection::request_reply;
use crate::connection::ConnectionState;
use crate::connection::MessagePump;
use crate::connection::OfferCollector;
use crate::error::Error;
use crate::error::Result;
use crate::gpadl::GpadlHandle;
use crate::hvsock;
use crate::hvsock::ConnectResultHandler;
use crate::hvsock::HandlerSink;
use crate::hypercalls;
use crate::hypercalls::post_message;
use crate::hypercalls::signal_event;
use crate::hypercalls::HvCtx;
use crate::hypercalls::HvEvent;
use crate::hypercalls::HypercallTrait;
use crate::interrupt::SimpPump;
use crate::message;
use crate::message::encode_to_vec;
use crate::message::CompletionKey;
use crate::message::CompletionTable;
use crate::message::MessageSink;
use crate::message::SlotState;
use crate::protocol;
use crate::protocol::ChannelId;
use crate::protocol::CloseChannel;
use crate::protocol::FeatureFlags;
use crate::protocol::GpadlId;
use crate::protocol::MessageType;
use crate::protocol::OfferChannel;
use crate::protocol::OpenChannel;
use crate::protocol::OpenChannel2;
use crate::protocol::OpenChannelFlags;
use crate::protocol::OpenResult;
use crate::protocol::RelIdReleased;
use crate::protocol::UserDefinedData;
use crate::protocol::VP_INDEX_DISABLE_INTERRUPT;
use crate::state;
use crate::state::IdCounter;
use crate::state::VmbusState;
use crate::synic::synic_pages;
use crate::wire;
use crate::wire::Wire;
use vstd::prelude::*;

verus! {

broadcast use crate::hypercalls::group_ran;

/// Whether the channel is usable.
#[derive(Copy, Clone, Debug, PartialEq, Eq, Structural)]
pub enum ChannelState {
    /// The channel is open and ring send/recv is allowed.
    Open,
    /// The host has rescinded the channel; further operations must
    /// return [`Error::Rescinded`].
    Rescinded,
    /// The channel has been closed cleanly.
    Closed,
}

/// A guest-side handle to a VMBus channel.
///
/// Ownership of the ring memory sits with the caller: [`Channel`]
/// only records the [`GpadlHandle`] and the ids the host assigned.
/// Drop the value only after [`close_channel_with`] (or after an observed
/// rescind).
#[derive(Debug, PartialEq, Eq, Structural)]
pub struct Channel {
    pub channel_id: ChannelId,
    pub open_id: u32,
    pub ring_gpadl: GpadlHandle,
    pub connection_id: u32,
    pub event_flag: u16,
    pub state: ChannelState,
}

impl Channel {
    /// The host-assigned channel id.
    pub fn channel_id(&self) -> (r: ChannelId)
        ensures
            r == self.channel_id,
    {
        self.channel_id
    }

    /// The `open_id` we used when opening this channel.
    pub fn open_id(&self) -> (r: u32)
        ensures
            r == self.open_id,
    {
        self.open_id
    }

    /// The GPADL backing the ring buffer.
    pub fn ring_gpadl(&self) -> (r: GpadlHandle)
        ensures
            r == self.ring_gpadl,
    {
        self.ring_gpadl
    }

    /// Connection id used to signal the host on send.
    pub fn connection_id(&self) -> (r: u32)
        ensures
            r == self.connection_id,
    {
        self.connection_id
    }

    /// Event flag of the host to guest direction.
    pub fn event_flag(&self) -> (r: u16)
        ensures
            r == self.event_flag,
    {
        self.event_flag
    }

    /// Current lifecycle state.
    pub fn state(&self) -> (r: ChannelState)
        ensures
            r == self.state,
    {
        self.state
    }

    /// Signalling the host went like this: a channel that is not open is
    /// not signalled.
    pub open spec fn signalled(
        self,
        log: (Seq<HvEvent>, Seq<HvEvent>),
        r: Result<()>,
    ) -> bool {
        if self.state != ChannelState::Open {
            &&& r == Err::<(), Error>(Error::Rescinded)
            &&& log.1 == log.0
        } else {
            &&& hypercalls::one_more(log.0, log.1)
            &&& hypercalls::is_signal(log.1.last(), self.connection_id, 0, r)
        }
    }

    /// Signal the host that we've published data on the send ring.
    ///
    /// The event flag is always `0` for guest to host signals; the
    /// `event_flag` we carry on [`Channel`] is only used for the
    /// **host to guest** direction (bit position in the SIEFP page).
    pub fn signal<C: HypercallTrait>(&self, ctx: &mut HvCtx<C>) -> (r: Result<()>)
        ensures
            old(ctx).ran_to(*final(ctx)),
            self.signalled((old(ctx).log(), final(ctx).log()), r),
    {
        if self.state != ChannelState::Open {
            return Err(Error::Rescinded);
        }
        signal_event(ctx, self.connection_id, 0)
    }
}

/// Allocate a fresh 32-bit `open_id`.
pub fn allocate_open_id(ids: &mut IdCounter) -> (r: u32)
    ensures
        r == old(ids).next,
        final(ids).next == state::nth_id(old(ids).next, 1),
{
    ids.allocate()
}

/// The request that opens a channel, without signal parameters.
pub open spec fn open_request(
    channel_id: ChannelId,
    open_id: u32,
    ring_gpadl: GpadlId,
    target_vp: u32,
    downstream_page_offset: u32,
) -> OpenChannel {
    OpenChannel {
        channel_id,
        open_id,
        ring_buffer_gpadl_id: ring_gpadl,
        target_vp,
        downstream_ring_buffer_page_offset: downstream_page_offset,
        user_data: wire::decoded::<UserDefinedData>(wire::zeros(120)),
    }
}

/// The message that opens a channel: with signal parameters where the
/// negotiated features have a use for them.
pub open spec fn open_bytes(
    base: OpenChannel,
    connection_id: u32,
    event_flag: u16,
    flags: OpenChannelFlags,
    negotiated: FeatureFlags,
) -> Seq<u8> {
    if negotiated.0 & 0x1 != 0 || negotiated.0 & 0x2 != 0 {
        protocol::message_bytes(
            OpenChannel2 { open_channel: base, connection_id, event_flag, flags },
        )
    } else {
        protocol::message_bytes(base)
    }
}

/// Encode `OpenChannel` / `OpenChannel2` (depending on negotiated
/// feature flags) for the given parameters. Returns the wire bytes
/// ready to be posted.
pub fn encode_open_channel(
    channel_id: ChannelId,
    open_id: u32,
    ring_gpadl: GpadlId,
    target_vp: u32,
    downstream_page_offset: u32,
    connection_id: u32,
    event_flag: u16,
    flags: OpenChannelFlags,
    negotiated: FeatureFlags,
) -> (r: Vec<u8>)
    ensures
        r@ == open_bytes(
            open_request(channel_id, open_id, ring_gpadl, target_vp, downstream_page_offset),
            connection_id,
            event_flag,
            flags,
            negotiated,
        ),
{
    let user_data = UserDefinedData::default();
    proof {
        wire::lemma_decoded(user_data);
    }
    let base = OpenChannel {
        channel_id,
        open_id,
        ring_buffer_gpadl_id: ring_gpadl,
        target_vp,
        downstream_ring_buffer_page_offset: downstream_page_offset,
        user_data,
    };
    let use_v2 = negotiated.guest_specified_signal_parameters()
        || negotiated.channel_interrupt_redirection();
    if use_v2 {
        let msg = OpenChannel2 { open_channel: base, connection_id, event_flag, flags };
        encode_to_vec(&msg)
    } else {
        encode_to_vec(&base)
    }
}

/// What the host's answer to an open request comes to.
pub open spec fn open_answer(reply: Result<Seq<u8>>, channel: Channel) -> Result<Channel> {
    match reply {
        Err(e) => Err(e),
        Ok(bytes) => match message::parsed::<OpenResult>(bytes) {
            Err(e) => Err(e),
            Ok(result) => if result.status != 0 {
                Err(
                    Error::Parse {
                        ty: Some(MessageType(MessageType::OPEN_CHANNEL_RESULT)),
                        reason: "host returned non-success OpenResult status",
                    },
                )
            } else {
                Ok(channel)
            },
        },
    }
}

/// Opening `channel` over a connection went like this. Host to guest
/// interrupts are switched off: the recv ring is polled.
pub open spec fn opened(
    state: ConnectionState,
    channel: Channel,
    send_data_pages: u32,
    table: (Seq<SlotState>, Seq<SlotState>),
    ev: Seq<HvEvent>,
    r: Result<Channel>,
) -> bool {
    &&& connection::asked(
        state.post_message_connection_id,
        open_bytes(
            open_request(
                channel.channel_id,
                channel.open_id,
                channel.ring_gpadl.gpadl_id,
                VP_INDEX_DISABLE_INTERRUPT,
                (1 + send_data_pages) as u32,
            ),
            channel.connection_id,
            channel.event_flag,
            OpenChannelFlags(0),
            state.feature_flags,
        ),
        CompletionKey::OpenChannelResult(channel.open_id),
        table,
        ev,
    )
    &&& r == open_answer(connection::answer_in(ev), channel)
}

/// Post `OpenChannel[/2]` and wait for `OpenResult`.
///
/// * `offer`: the offer chosen for opening.
/// * `ring_gpadl`: GPADL handle covering the ring buffer memory:
///   `1 + send_data_pages` contiguous pages for the send ring, then as
///   many as it takes for the recv ring. The
///   `downstream_ring_buffer_page_offset` field posted to the host is
///   `1 + send_data_pages`.
/// * `send_data_pages`: data pages for the send ring.
pub fn open_channel_with<C: HypercallTrait, P: MessagePump, S: MessageSink, H: ConnectResultHandler>(
    ctx: &mut HvCtx<C>,
    connection: Option<ConnectionState>,
    open_ids: &mut IdCounter,
    table: &mut CompletionTable,
    pump: &mut P,
    sink: &mut HandlerSink<S, H>,
    offer: &OfferChannel,
    ring_gpadl: GpadlHandle,
    send_data_pages: u32,
    connection_id: u32,
    event_flag: u16,
) -> (r: Result<Channel>)
    requires
        send_data_pages < u32::MAX,
    ensures
        old(ctx).ran_to(*final(ctx)),
        final(pump).source() == old(pump).source(),
        connection::drains_from(old(pump).source(), old(ctx).log(), final(ctx).log()),
        message::sink_after(
            *old(sink),
            connection::drained_in(final(ctx).log().skip(old(ctx).log().len() as int)),
            *final(sink),
        ),
        old(ctx).log().is_prefix_of(final(ctx).log()),
        match connection {
            None => {
                &&& r == Err::<Channel, Error>(Error::VersionMismatch)
                &&& final(ctx).log() == old(ctx).log()
                &&& final(open_ids).next == old(open_ids).next
                &&& final(table)@ == old(table)@
            },
            Some(state) => {
                &&& final(open_ids).next == state::nth_id(old(open_ids).next, 1)
                &&& opened(
                    state,
                    Channel {
                        channel_id: offer.channel_id,
                        open_id: old(open_ids).next,
                        ring_gpadl,
                        connection_id,
                        event_flag,
                        state: ChannelState::Open,
                    },
                    send_data_pages,
                    (old(table)@, final(table)@),
                    final(ctx).log().skip(old(ctx).log().len() as int),
                    r,
                )
            },
        },
{
    let state = match connection {
        Some(state) => state,
        None => return Err(Error::VersionMismatch),
    };
    let open_id = allocate_open_id(open_ids);
    let payload = encode_open_channel(
        offer.channel_id,
        open_id,
        ring_gpadl.gpadl_id,
        VP_INDEX_DISABLE_INTERRUPT,
        1 + send_data_pages,
        connection_id,
        event_flag,
        OpenChannelFlags::new(),
        state.feature_flags,
    );
    let reply = request_reply(
        ctx,
        table,
        pump,
        sink,
        state.post_message_connection_id,
        CompletionKey::OpenChannelResult(open_id),
        payload.as_slice(),
    );
    let bytes = match reply {
        Ok(bytes) => bytes,
        Err(e) => return Err(e),
    };
    let result: OpenResult = match message::parse(bytes.as_slice()) {
        Ok(result) => result,
        Err(e) => return Err(e),
    };
    if result.status != 0 {
        return Err(
            Error::Parse {
                ty: Some(MessageType(MessageType::OPEN_CHANNEL_RESULT)),
                reason: "host returned non-success OpenResult status",
            },
        );
    }
    Ok(
        Channel {
            channel_id: offer.channel_id,
            open_id,
            ring_gpadl,
            connection_id,
            event_flag,
            state: ChannelState::Open,
        },
    )
}

/// Closing `channel` over a connection went like this: the channel is
/// closed, unless the host has taken it back already, and its id
/// released.
pub open spec fn closed(
    connection_id: u32,
    channel: Channel,
    ev: Seq<HvEvent>,
    r: Result<()>,
) -> bool {
    let close = protocol::message_bytes(CloseChannel { channel_id: channel.channel_id });
    let release = protocol::message_bytes(RelIdReleased { channel_id: channel.channel_id });
    if channel.state == ChannelState::Rescinded {
        &&& ev.len() == 1
        &&& ev[0].is_post(connection_id, release, r)
    } else {
        &&& ev.len() >= 1
        &&& connection::posts(ev[0], connection_id, close)
        &&& match connection::post_result(ev[0]) {
            Err(e) => ev.len() == 1 && r == Err::<(), Error>(e),
            Ok(_) => ev.len() == 2 && ev[1].is_post(connection_id, release, r),
        }
    }
}

/// Posts `CloseChannel`, then `RelIdReleased`. Neither requires a
/// completion: the host tears the channel down synchronously.
pub fn close_channel_with<C: HypercallTrait>(
    ctx: &mut HvCtx<C>,
    connection: Option<ConnectionState>,
    channel: Channel,
) -> (r: Result<()>)
    ensures
        old(ctx).ran_to(*final(ctx)),
        closed_over(connection, (old(ctx).log(), final(ctx).log()), channel, r),
{
    let state = match connection {
        Some(state) => state,
        None => return Err(Error::VersionMismatch),
    };
    let conn_id = state.post_message_connection_id;
    let ghost before = ctx.log();
    let mut closing: bool = false;
    // A rescinded channel has been torn down by the host; we only need
    // to release our end.
    if channel.state != ChannelState::Rescinded {
        closing = true;
        let close = CloseChannel { channel_id: channel.channel_id };
        let payload = encode_to_vec(&close);
        let posted = post_message(ctx, conn_id, payload.as_slice());
        proof {
            connection::lemma_one_more(before, ctx.log());
        }
        match posted {
            Ok(()) => {},
            Err(e) => return Err(e),
        }
    }
    let ghost mid = ctx.log();
    let rel = RelIdReleased { channel_id: channel.channel_id };
    let payload = encode_to_vec(&rel);
    let r = post_message(ctx, conn_id, payload.as_slice());
    proof {
        if closing {
            connection::lemma_two_more(before, mid, ctx.log());
        } else {
            connection::lemma_one_more(before, ctx.log());
        }
    }
    r
}

/// Opening a channel over the guest's state went like this.
pub open spec fn opened_over<H: ConnectResultHandler>(
    state: (VmbusState<H>, VmbusState<H>),
    log: (Seq<HvEvent>, Seq<HvEvent>),
    channel_id: ChannelId,
    ring_gpadl: GpadlHandle,
    send_data_pages: u32,
    connection_id: u32,
    event_flag: u16,
    r: Result<Channel>,
) -> bool {
    &&& log.0.is_prefix_of(log.1)
    &&& connection::drains_simp(state.0.synic, log)
    &&& hvsock::handler_after(
        state.0.handler,
        connection::drained_in(log.1.skip(log.0.len() as int)),
        state.1.handler,
    )
    &&& state.1.connection == state.0.connection
    &&& state.1.synic == state.0.synic
    &&& state.1.gpadl_ids.next == state.0.gpadl_ids.next
    &&& if state.0.synic is None || state.0.connection is None {
        &&& r == Err::<Channel, Error>(Error::VersionMismatch)
        &&& log.1 == log.0
        &&& state.1.table@ == state.0.table@
        &&& state.1.open_ids.next == state.0.open_ids.next
    } else {
        &&& state.1.open_ids.next == state::nth_id(state.0.open_ids.next, 1)
        &&& opened(
            state.0.connection->0,
            Channel {
                channel_id,
                open_id: state.0.open_ids.next,
                ring_gpadl,
                connection_id,
                event_flag,
                state: ChannelState::Open,
            },
            send_data_pages,
            (state.0.table@, state.1.table@),
            log.1.skip(log.0.len() as int),
            r,
        )
    }
}

/// [`open_channel_with`] using the guest's own completion table and a
/// SIMP-page-backed pump.
///
/// * `send_data_pages`: power-of-two data pages for the send ring.
/// * `connection_id` / `event_flag`: populated only when Copper's
///   `GUEST_SPECIFIED_SIGNAL_PARAMETERS` feature was negotiated.
pub fn open_channel<C: HypercallTrait, H: ConnectResultHandler>(
    ctx: &mut HvCtx<C>,
    state: &mut VmbusState<H>,
    offer: &OfferChannel,
    ring_gpadl: GpadlHandle,
    send_data_pages: u32,
    connection_id: u32,
    event_flag: u16,
) -> (r: Result<Channel>)
    requires
        send_data_pages < u32::MAX,
    ensures
        old(ctx).ran_to(*final(ctx)),
        opened_over(
            (*old(state), *final(state)),
            (old(ctx).log(), final(ctx).log()),
            offer.channel_id,
            ring_gpadl,
            send_data_pages,
            connection_id,
            event_flag,
            r,
        ),
{
    let pages = match synic_pages(&state.synic) {
        Some(pages) => pages,
        None => return Err(Error::VersionMismatch),
    };
    let mut pump = SimpPump::new(pages.simp_gpa);
    let mut sink = HandlerSink { inner: OfferCollector::default(), handler: state.handler.take() };
    let ghost first = sink;
    let r = open_channel_with(
        ctx,
        state.connection,
        &mut state.open_ids,
        &mut state.table,
        &mut pump,
        &mut sink,
        offer,
        ring_gpadl,
        send_data_pages,
        connection_id,
        event_flag,
    );
    proof {
        let ev = ctx.log().skip(old(ctx).log().len() as int);
        hvsock::law_handler_sees(first, connection::drained_in(ev), sink);
    }
    state.handler = sink.handler;
    r
}

/// Closing a channel over the guest's connection, if there is one, went
/// like this.
pub open spec fn closed_over(
    connection: Option<ConnectionState>,
    log: (Seq<HvEvent>, Seq<HvEvent>),
    channel: Channel,
    r: Result<()>,
) -> bool {
    &&& log.0.is_prefix_of(log.1)
    &&& match connection {
        None => r == Err::<(), Error>(Error::VersionMismatch) && log.1 == log.0,
        Some(agreed) => closed(
            agreed.post_message_connection_id,
            channel,
            log.1.skip(log.0.len() as int),
            r,
        ),
    }
}

/// [`close_channel_with`] over the guest's connection.
pub fn close_channel<C: HypercallTrait, H: ConnectResultHandler>(
    ctx: &mut HvCtx<C>,
    state: &VmbusState<H>,
    channel: Channel,
) -> (r: Result<()>)
    ensures
        old(ctx).ran_to(*final(ctx)),
        closed_over(state.connection, (old(ctx).log(), final(ctx).log()), channel, r),
{
    close_channel_with(ctx, state.connection, channel)
}

} // verus!
