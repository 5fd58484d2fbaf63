//! Handlers that fuzz the VMBus protocol itself: arbitrary bytes posted
//! as channel messages, and arbitrary packets (including self-inconsistent
//! descriptors) written into a channel's ring.
//!
//! * [`vmbus_msg`]: post a raw channel message, fire-and-forget.
//! * [`vmbus_msg_comp`]: post a raw channel message and copy the host's
//!   reply back into a program-visible output buffer.
//! * [`vmbus_packet`]: write a packet into the ring of an opened channel,
//!   optionally with a fully program-controlled descriptor.
//! * [`vmbus_reopen_channel`]: close and reopen that channel.
//! * [`vmbus_fill_relids`]: hand the program real `child_relid` values so
//!   its generated messages address channels the host knows about.
//!
//! The VMBus connection (SynIC + negotiation + offers) is brought up
//! lazily on first use and kept warm, since a testcase that never gets
//! past `InitiateContact` reaches almost none of the host's code.
use crate::connection;
use crate::devices::netvsp;
use crate::devices::netvsp::RingRegion;
use crate::devices::netvsp::RING_REGION_BYTES;
use crate::error::Error;
use crate::error::Result;
use crate::error::TmkError;
use crate::functions;
use crate::functions::read_input;
use crate::functions::Boot;
use crate::functions::Handled;
use crate::functions::HandlerError;
use crate::functions::SafeMemoryMap;
use crate::fuzz;
use crate::fuzz::RawChannel;
use crate::fuzz::PACKET_DESCRIPTOR_SIZE;
use crate::hvsock::ConnectResultHandler;
use crate::hypercalls;
use crate::hypercalls::HvCtx;
use crate::hypercalls::HvEvent;
use crate::hypercalls::HypercallTrait;
use crate::interrupt;
use crate::packet;
use crate::packet::OutPacket;
use crate::protocol::OfferChannel;
use crate::protocol::PacketFlags;
use crate::protocol::PacketType;
use crate::ring::RingMem;
use crate::state::VmbusState;
use crate::wire::Wire;
use vstd::prelude::*;

verus! {

broadcast use crate::hypercalls::group_ran;

/// Upper bound on a program-supplied message length before it is staged.
///
/// The length is untrusted input, so an unbounded buffer would exhaust
/// memory long before the host saw anything. A channel message can't
/// exceed the 240-byte hypervisor payload anyway; the extra slack lets
/// over-long lengths through to the truncation in
/// [`fuzz::post_raw_message`] so that "declared longer than it is" stays
/// reachable.
pub const MAX_FUZZ_MSG_LEN: usize = 4096;

/// Upper bound on a program-supplied ring packet payload. The ring has
/// 32 KiB of data per direction; anything near that is rejected before
/// it can wedge the ring for the rest of the testcase.
pub const MAX_FUZZ_PKT_LEN: usize = 16384;

/// Number of relids [`vmbus_fill_relids`] writes.
pub const FILL_RELIDS_COUNT: usize = 10;

/// Number of stale host messages discarded at each testcase boundary.
pub const RESET_DRAIN_LIMIT: usize = 64;

/// A live VMBus connection plus the channel used for ring traffic.
pub struct VmbusSession<C, M: RingMem> {
    /// Hypercall context.
    pub ctx: HvCtx<C>,
    /// Offers as delivered by the host, used by [`vmbus_fill_relids`]
    /// and to pick the channel to open.
    pub offers: Vec<OfferChannel>,
    /// Channel backing [`vmbus_packet`]. Opened lazily: a run that only
    /// ever posts channel messages never needs a ring.
    pub chan: Option<RawChannel<M>>,
}

impl<C, M: RingMem> VmbusSession<C, M> {
    /// The channel's rings have the shape of rings.
    pub open spec fn wf(&self) -> bool {
        self.chan matches Some(c) ==> c.wf()
    }
}

/// A session, if there is one, is well formed.
pub open spec fn cell_wf<C, M: RingMem>(cell: Option<VmbusSession<C, M>>) -> bool {
    cell matches Some(s) ==> s.wf()
}

// ---------------------------------------------------------------------------
// Bring-up
// ---------------------------------------------------------------------------
/// Bringing a session up over the guest's state went like this: the bus
/// is initialised, then the offers are asked for.
pub open spec fn brought_up<C: HypercallTrait, M: RingMem, H: ConnectResultHandler>(
    boot: Boot<C>,
    state: (VmbusState<H>, VmbusState<H>),
    r: Handled<VmbusSession<C, M>>,
) -> bool {
    exists|mid: VmbusState<H>, ctx: HvCtx<C>, up: Result<()>| #[trigger]
        crate::inited((state.0, mid), (Seq::empty(), ctx.log()), boot.pages, up) && ctx.since(
            boot.ctx,
        ) && match up {
            Err(e) => state.1 == mid && r == Err::<VmbusSession<C, M>, HandlerError>(
                HandlerError::Init(e),
            ),
            Ok(_) => enumerated((mid, state.1), ctx, r),
        }
}

/// Asking for a new session's offers went like this.
pub open spec fn enumerated<C: HypercallTrait, M: RingMem, H: ConnectResultHandler>(
    state: (VmbusState<H>, VmbusState<H>),
    ctx: HvCtx<C>,
    r: Handled<VmbusSession<C, M>>,
) -> bool {
    match r {
        Ok(s) => {
            &&& s.chan is None
            &&& ctx.ran_to(s.ctx)
            &&& connection::offers_asked(state, (ctx.log(), s.ctx.log()), Ok(s.offers@))
        },
        Err(e) => exists|end: HvCtx<C>, why: Error| #[trigger]
            connection::offers_asked(state, (ctx.log(), end.log()), Err(why)) && ctx.ran_to(end)
                && e == HandlerError::Offers(why),
    }
}

/// Offers that did not come.
proof fn lemma_not_enumerated<C: HypercallTrait, M: RingMem, H: ConnectResultHandler>(
    state: (VmbusState<H>, VmbusState<H>),
    ctx: HvCtx<C>,
    end: HvCtx<C>,
    why: Error,
)
    requires
        connection::offers_asked(state, (ctx.log(), end.log()), Err(why)),
        ctx.ran_to(end),
    ensures
        enumerated::<C, M, H>(state, ctx, Err(HandlerError::Offers(why))),
{
}

/// Initialising, and what came after it.
proof fn lemma_brought_up<C: HypercallTrait, M: RingMem, H: ConnectResultHandler>(
    boot: Boot<C>,
    state: (VmbusState<H>, VmbusState<H>),
    mid: VmbusState<H>,
    ctx: HvCtx<C>,
    up: Result<()>,
    r: Handled<VmbusSession<C, M>>,
)
    requires
        crate::inited((state.0, mid), (Seq::empty(), ctx.log()), boot.pages, up),
        ctx.since(boot.ctx),
        match up {
            Err(e) => state.1 == mid && r == Err::<VmbusSession<C, M>, HandlerError>(
                HandlerError::Init(e),
            ),
            Ok(_) => enumerated((mid, state.1), ctx, r),
        },
    ensures
        brought_up(boot, state, r),
{
}

/// Bring up SynIC + the VMBus connection and enumerate offers.
pub fn bring_up_session<C: HypercallTrait, M: RingMem, H: ConnectResultHandler>(
    boot: Boot<C>,
    state: &mut VmbusState<H>,
) -> (r: Handled<VmbusSession<C, M>>)
    ensures
        brought_up(boot, (*old(state), *final(state)), r),
        r matches Ok(s) ==> s.wf(),
{
    let ghost first = *state;
    let ghost booted = boot;
    let mut ctx = HvCtx::new(boot.ctx);
    let ghost new = ctx;
    let up = crate::init(&mut ctx, state, boot.pages);
    let ghost mid = *state;
    let ghost mid_ctx = ctx;
    proof {
        HvCtx::lemma_since(new, ctx);
    }
    let r = match up {
        Ok(()) => match crate::request_offers(&mut ctx, state) {
            Ok(offers) => {
                let session = VmbusSession { ctx, offers, chan: None };
                proof {
                    assert(enumerated::<C, M, H>((mid, *state), mid_ctx, Ok(session)));
                }
                Ok(session)
            },
            Err(e) => {
                proof {
                    lemma_not_enumerated::<C, M, H>((mid, *state), mid_ctx, ctx, e);
                }
                Err(HandlerError::Offers(e))
            },
        },
        Err(e) => Err(HandlerError::Init(e)),
    };
    proof {
        lemma_brought_up(booted, (first, *state), mid, mid_ctx, up, r);
    }
    r
}

/// Making sure that there is a session went like this: one that is there
/// is kept; otherwise the platform is asked for what a new one needs.
pub open spec fn session_up<
    C: HypercallTrait,
    M: RingMem,
    H: ConnectResultHandler,
    F: FnOnce() -> core::result::Result<Boot<C>, TmkError>,
>(
    boot: F,
    cell: (Option<VmbusSession<C, M>>, Option<VmbusSession<C, M>>),
    state: (VmbusState<H>, VmbusState<H>),
    r: Handled<()>,
) -> bool {
    match cell.0 {
        Some(_) => {
            &&& r == Ok::<(), HandlerError>(())
            &&& cell.1 == cell.0
            &&& state.1 == state.0
        },
        None => exists|b: core::result::Result<Boot<C>, TmkError>| #[trigger]
            call_ensures(boot, (), b) && match b {
                Err(e) => {
                    &&& r == Err::<(), HandlerError>(HandlerError::Context(e))
                    &&& cell.1 is None
                    &&& state.1 == state.0
                },
                Ok(p) => match r {
                    Ok(_) => cell.1 is Some && brought_up(p, state, Ok(cell.1->0)),
                    Err(e) => cell.1 is None && brought_up::<C, M, H>(p, state, Err(e)),
                },
            },
    }
}

/// Make sure that there is a session. It is brought up on first use and
/// then kept warm.
pub fn with_session<
    C: HypercallTrait,
    M: RingMem,
    H: ConnectResultHandler,
    F: FnOnce() -> core::result::Result<Boot<C>, TmkError>,
>(
    cell: &mut Option<VmbusSession<C, M>>,
    boot: F,
    state: &mut VmbusState<H>,
) -> (r: Handled<()>)
    requires
        cell_wf(*old(cell)),
        call_requires(boot, ()),
    ensures
        cell_wf(*final(cell)),
        r is Ok ==> *final(cell) is Some,
        session_up(boot, (*old(cell), *final(cell)), (*old(state), *final(state)), r),
{
    if cell.is_none() {
        let booted = boot();
        proof {
            assert(call_ensures(boot, (), booted));
        }
        let p = match booted {
            Ok(p) => p,
            Err(e) => return Err(HandlerError::Context(e)),
        };
        match bring_up_session(p, state) {
            Ok(session) => {
                *cell = Some(session);
            },
            Err(e) => return Err(e),
        }
    }
    Ok(())
}

// ---------------------------------------------------------------------------
// The ring channel
// ---------------------------------------------------------------------------
/// The first offer of a synthetic NIC, if there is one.
pub open spec fn first_netvsp(offers: Seq<OfferChannel>) -> Option<OfferChannel>
    decreases offers.len(),
{
    if offers.len() == 0 {
        None
    } else if netvsp::is_interface(offers[0].interface_id) {
        Some(offers[0])
    } else {
        first_netvsp(offers.drop_first())
    }
}

/// The offer to open for ring traffic.
pub open spec fn preferred(offers: Seq<OfferChannel>) -> Option<OfferChannel> {
    match first_netvsp(offers) {
        Some(offer) => Some(offer),
        None => if offers.len() == 0 {
            None
        } else {
            Some(offers[0])
        },
    }
}

/// The first offer of a synthetic NIC, if there is one.
pub fn find_netvsp(offers: &[OfferChannel]) -> (r: Option<OfferChannel>)
    ensures
        r == first_netvsp(offers@),
{
    let wanted = netvsp::interface_guid();
    let mut i: usize = 0;
    proof {
        assert(offers@.skip(0) =~= offers@);
    }
    while i < offers.len()
        invariant
            i <= offers@.len(),
            netvsp::is_interface(wanted),
            first_netvsp(offers@) == first_netvsp(offers@.skip(i as int)),
        decreases offers@.len() - i,
    {
        let offer = offers[i];
        proof {
            netvsp::lemma_interface(wanted, offer.interface_id);
            assert(offers@.skip(i as int)[0] == offer);
            assert(offers@.skip(i as int).drop_first() =~= offers@.skip(i + 1));
        }
        if offer.interface_id.same(&wanted) {
            return Some(offer);
        }
        i += 1;
    }
    None
}

/// Choose the offer to open for ring traffic.
///
/// Prefers netvsp: it is the device most likely to be present and has the
/// richest host-side packet parsing. Falls back to the first offer so the
/// handler still works on a VM without a synthetic NIC.
pub fn preferred_offer(offers: &[OfferChannel]) -> (r: Option<OfferChannel>)
    ensures
        r == preferred(offers@),
{
    match find_netvsp(offers) {
        Some(offer) => Some(offer),
        None => if offers.len() == 0 {
            None
        } else {
            Some(offers[0])
        },
    }
}

/// What the platform may hand out for a channel's rings.
pub open spec fn usable<M: RingMem>(region: Option<RingRegion<M>>) -> bool {
    region matches Some(g) ==> g.send_mem.state().wf() && g.recv_mem.state().wf() && g.base_gpa
        + RING_REGION_BYTES <= u64::MAX
}

/// The allocator hands out nothing but what is usable.
pub open spec fn allocates<M: RingMem, A: FnOnce() -> Option<RingRegion<M>>>(rings: A) -> bool {
    &&& call_requires(rings, ())
    &&& forall|region: Option<RingRegion<M>>| #[trigger]
        call_ensures(rings, (), region) ==> usable(region)
}

/// Opening the session's channel on the preferred offer went like this.
pub open spec fn channel_opened<
    C: HypercallTrait,
    M: RingMem,
    H: ConnectResultHandler,
    A: FnOnce() -> Option<RingRegion<M>>,
>(
    rings: A,
    session: (VmbusSession<C, M>, VmbusSession<C, M>),
    state: (VmbusState<H>, VmbusState<H>),
    r: Handled<()>,
) -> bool {
    &&& session.0.ctx.ran_to(session.1.ctx)
    &&& session.1.offers == session.0.offers
    &&& match preferred(session.0.offers@) {
        None => {
            &&& r == Err::<(), HandlerError>(HandlerError::NoOffers)
            &&& session.1 == session.0
            &&& state.1 == state.0
        },
        Some(offer) => exists|region: Option<RingRegion<M>>| #[trigger]
            call_ensures(rings, (), region) && match r {
                Ok(_) => {
                    &&& session.1.chan is Some
                    &&& fuzz::raw_opened(
                        state,
                        (session.0.ctx.log(), session.1.ctx.log()),
                        offer,
                        region,
                        Ok(session.1.chan->0),
                    )
                },
                Err(e) => {
                    &&& session.1.chan == session.0.chan
                    &&& e matches HandlerError::Open(why)
                    &&& fuzz::raw_opened::<M, H>(
                        state,
                        (session.0.ctx.log(), session.1.ctx.log()),
                        offer,
                        region,
                        Err(why),
                    )
                },
            },
    }
}

/// Open the session's channel on the preferred offer.
fn open_session_channel<
    C: HypercallTrait,
    M: RingMem,
    H: ConnectResultHandler,
    A: FnOnce() -> Option<RingRegion<M>>,
>(
    session: &mut VmbusSession<C, M>,
    rings: A,
    state: &mut VmbusState<H>,
) -> (r: Handled<()>)
    requires
        old(session).wf(),
        allocates(rings),
    ensures
        old(session).ctx.ran_to(final(session).ctx),
        final(session).wf(),
        channel_opened(rings, (*old(session), *final(session)), (*old(state), *final(state)), r),
{
    let offer = match preferred_offer(session.offers.as_slice()) {
        Some(offer) => offer,
        None => return Err(HandlerError::NoOffers),
    };
    let region = rings();
    proof {
        assert(call_ensures(rings, (), region));
    }
    match RawChannel::open(&mut session.ctx, state, &offer, region) {
        Ok(chan) => {
            session.chan = Some(chan);
            Ok(())
        },
        Err(e) => Err(HandlerError::Open(e)),
    }
}

/// Making sure that the session has a channel went like this: one that is
/// there is kept.
pub open spec fn channel_up<
    C: HypercallTrait,
    M: RingMem,
    H: ConnectResultHandler,
    A: FnOnce() -> Option<RingRegion<M>>,
>(
    rings: A,
    session: (VmbusSession<C, M>, VmbusSession<C, M>),
    state: (VmbusState<H>, VmbusState<H>),
    r: Handled<()>,
) -> bool {
    if session.0.chan is Some {
        &&& r == Ok::<(), HandlerError>(())
        &&& session.1 == session.0
        &&& state.1 == state.0
    } else {
        channel_opened(rings, session, state, r)
    }
}

/// Make sure that the session has a ring channel, opening it on first
/// use.
pub fn with_channel<
    C: HypercallTrait,
    M: RingMem,
    H: ConnectResultHandler,
    A: FnOnce() -> Option<RingRegion<M>>,
>(
    session: &mut VmbusSession<C, M>,
    rings: A,
    state: &mut VmbusState<H>,
) -> (r: Handled<()>)
    requires
        old(session).wf(),
        allocates(rings),
    ensures
        old(session).ctx.ran_to(final(session).ctx),
        final(session).wf(),
        r is Ok ==> final(session).chan is Some,
        channel_up(rings, (*old(session), *final(session)), (*old(state), *final(state)), r),
{
    if session.chan.is_none() {
        return open_session_channel(session, rings, state);
    }
    Ok(())
}

// ---------------------------------------------------------------------------
// Channel messages
// ---------------------------------------------------------------------------
/// What the bus answered, as a handler reports it.
pub open spec fn bus(r: Result<()>) -> Handled<()> {
    match r {
        Ok(_) => Ok(()),
        Err(e) => Err(HandlerError::Bus(e)),
    }
}

/// Staging a message went like this: the input is read first, and only
/// then is a session brought up.
pub open spec fn staged<
    C: HypercallTrait,
    M: RingMem,
    H: ConnectResultHandler,
    G: SafeMemoryMap,
    F: FnOnce() -> core::result::Result<Boot<C>, TmkError>,
>(
    boot: F,
    cell: (Option<VmbusSession<C, M>>, Option<VmbusSession<C, M>>),
    state: (VmbusState<H>, VmbusState<H>),
    mem: (G, G),
    pkt: usize,
    pkt_len: usize,
    r: Handled<Seq<u8>>,
) -> bool {
    exists|read: Handled<Seq<u8>>| #[trigger]
        functions::input_read(mem, pkt, pkt_len, MAX_FUZZ_MSG_LEN, read) && match read {
            Err(e) => {
                &&& r == Err::<Seq<u8>, HandlerError>(e)
                &&& cell.1 == cell.0
                &&& state.1 == state.0
            },
            Ok(msg) => match r {
                Ok(bytes) => bytes == msg && cell.1 is Some && session_up(
                    boot,
                    cell,
                    state,
                    Ok(()),
                ),
                Err(e) => session_up(boot, cell, state, Err(e)),
            },
        }
}

/// Read the message, then make sure that there is a session.
fn stage<
    C: HypercallTrait,
    M: RingMem,
    H: ConnectResultHandler,
    G: SafeMemoryMap,
    F: FnOnce() -> core::result::Result<Boot<C>, TmkError>,
>(
    cell: &mut Option<VmbusSession<C, M>>,
    boot: F,
    state: &mut VmbusState<H>,
    mem: &mut G,
    pkt: usize,
    pkt_len: usize,
) -> (r: Handled<Vec<u8>>)
    requires
        cell_wf(*old(cell)),
        call_requires(boot, ()),
    ensures
        cell_wf(*final(cell)),
        staged(
            boot,
            (*old(cell), *final(cell)),
            (*old(state), *final(state)),
            (*old(mem), *final(mem)),
            pkt,
            pkt_len,
            functions::bytes_got(r),
        ),
{
    let read = read_input(mem, pkt, pkt_len, MAX_FUZZ_MSG_LEN);
    proof {
        assert(functions::input_read(
            (*old(mem), *mem),
            pkt,
            pkt_len,
            MAX_FUZZ_MSG_LEN,
            functions::bytes_got(read),
        ));
    }
    let msg = match read {
        Ok(msg) => msg,
        Err(e) => return Err(e),
    };
    match with_session(cell, boot, state) {
        Ok(()) => Ok(msg),
        Err(e) => Err(e),
    }
}

/// Posting `msg` over the session went like this.
pub open spec fn msg_posted<C: HypercallTrait, M: RingMem>(
    session: (VmbusSession<C, M>, VmbusSession<C, M>),
    connection_id: u32,
    msg: Seq<u8>,
    r: Handled<()>,
) -> bool {
    let ev = session.1.ctx.log().last();
    &&& session.0.ctx.ran_to(session.1.ctx)
    &&& session.1.offers == session.0.offers
    &&& session.1.chan == session.0.chan
    &&& hypercalls::one_more(session.0.ctx.log(), session.1.ctx.log())
    &&& ev.is_post(connection_id, hypercalls::truncated(msg), connection::post_result(ev))
    &&& r == bus(connection::post_result(ev))
}

/// `vmbus_msg(pkt, pkt_len, conn_id)`: post a raw channel message.
///
/// * `pkt`: address of the message bytes (a `MessageHeader` followed by a
///   body, as far as the host is concerned).
/// * `pkt_len`: byte length of the message.
/// * `conn_id`: connection id to post on; `0` means the negotiated one.
///   See [`fuzz::resolve_connection_id`]. It is resolved before a session
///   is brought up.
pub fn vmbus_msg<
    C: HypercallTrait,
    M: RingMem,
    H: ConnectResultHandler,
    G: SafeMemoryMap,
    F: FnOnce() -> core::result::Result<Boot<C>, TmkError>,
>(
    cell: &mut Option<VmbusSession<C, M>>,
    boot: F,
    state: &mut VmbusState<H>,
    mem: &mut G,
    pkt: usize,
    pkt_len: usize,
    conn_id: u64,
) -> (r: Handled<()>)
    requires
        cell_wf(*old(cell)),
        call_requires(boot, ()),
    ensures
        cell_wf(*final(cell)),
        exists|mid: Option<VmbusSession<C, M>>, got: Handled<Seq<u8>>| #[trigger]
            staged(
                boot,
                (*old(cell), mid),
                (*old(state), *final(state)),
                (*old(mem), *final(mem)),
                pkt,
                pkt_len,
                got,
            ) && match got {
                Err(e) => r == Err::<(), HandlerError>(e) && *final(cell) == mid,
                Ok(msg) => {
                    &&& mid is Some
                    &&& *final(cell) is Some
                    &&& msg_posted(
                        (mid->0, final(cell)->0),
                        fuzz::resolved_id(old(state).connection, conn_id),
                        msg,
                        r,
                    )
                },
            },
{
    let connection_id = fuzz::resolve_connection_id(&state.connection, conn_id);
    let got = stage(cell, boot, state, mem, pkt, pkt_len);
    let ghost mid = *cell;
    proof {
        assert(staged(
            boot,
            (*old(cell), mid),
            (*old(state), *state),
            (*old(mem), *mem),
            pkt,
            pkt_len,
            functions::bytes_got(got),
        ));
    }
    let msg = match got {
        Ok(msg) => msg,
        Err(e) => return Err(e),
    };
    match cell {
        Some(session) => match fuzz::post_raw_message(
            &mut session.ctx,
            connection_id,
            msg.as_slice(),
        ) {
            Ok(()) => Ok(()),
            Err(e) => Err(HandlerError::Bus(e)),
        },
        None => Ok(()),
    }
}

/// Handing a reply back went like this: it is cut to what the program has
/// room for, and not written where the program has none.
pub open spec fn reply_written<G: SafeMemoryMap>(
    mem: (G, G),
    resp: Option<Seq<u8>>,
    pkt_out: usize,
    pkt_out_len: usize,
    r: Handled<()>,
) -> bool {
    if resp is None || pkt_out == 0 || pkt_out_len == 0 {
        &&& r == Ok::<(), HandlerError>(())
        &&& mem.1 == mem.0
    } else {
        let n = if resp->0.len() < pkt_out_len {
            resp->0.len() as int
        } else {
            pkt_out_len as int
        };
        &&& mem.0.mem_written(pkt_out, resp->0.take(n), r is Ok, mem.1)
        &&& r matches Err(e) ==> e == HandlerError::WriteFault
    }
}

/// Posting `msg` over the session, and handing the reply back, went like
/// this.
pub open spec fn msg_answered<C: HypercallTrait, M: RingMem, H: ConnectResultHandler, G: SafeMemoryMap>(
    session: (VmbusSession<C, M>, VmbusSession<C, M>),
    state: (VmbusState<H>, VmbusState<H>),
    mem: (G, G),
    connection_id: u32,
    msg: Seq<u8>,
    out: (usize, usize),
    r: Handled<()>,
) -> bool {
    &&& session.1.offers == session.0.offers
    &&& session.0.ctx.ran_to(session.1.ctx)
    &&& session.1.chan == session.0.chan
    &&& exists|w: Result<Option<Seq<u8>>>| #[trigger]
        fuzz::waited(
            state,
            (session.0.ctx.log(), session.1.ctx.log()),
            connection_id,
            msg,
            fuzz::DEFAULT_WAIT_POLLS as nat,
            w,
        ) && match w {
            Err(e) => {
                &&& r == Err::<(), HandlerError>(HandlerError::Bus(e))
                &&& mem.1 == mem.0
            },
            Ok(resp) => reply_written(mem, resp, out.0, out.1, r),
        }
}

/// Post `msg` over the session and hand the reply back.
fn post_and_answer<
    C: HypercallTrait,
    M: RingMem,
    H: ConnectResultHandler,
    G: SafeMemoryMap,
>(
    session: &mut VmbusSession<C, M>,
    state: &mut VmbusState<H>,
    mem: &mut G,
    connection_id: u32,
    msg: &[u8],
    pkt_out: usize,
    pkt_out_len: usize,
) -> (r: Handled<()>)
    requires
        old(session).wf(),
    ensures
        old(session).ctx.ran_to(final(session).ctx),
        final(session).wf(),
        msg_answered(
            (*old(session), *final(session)),
            (*old(state), *final(state)),
            (*old(mem), *final(mem)),
            connection_id,
            msg@,
            (pkt_out, pkt_out_len),
            r,
        ),
{
    let w = fuzz::post_raw_message_wait(
        &mut session.ctx,
        state,
        connection_id,
        msg,
        fuzz::DEFAULT_WAIT_POLLS,
    );
    proof {
        assert(fuzz::waited(
            (*old(state), *state),
            (old(session).ctx.log(), session.ctx.log()),
            connection_id,
            msg@,
            fuzz::DEFAULT_WAIT_POLLS as nat,
            interrupt::captured_bytes(w),
        ));
    }
    let resp = match w {
        Ok(Some(resp)) => resp,
        Ok(None) => return Ok(()),
        Err(e) => return Err(HandlerError::Bus(e)),
    };
    if pkt_out == 0 || pkt_out_len == 0 {
        return Ok(());
    }
    let n = if resp.len() < pkt_out_len {
        resp.len()
    } else {
        pkt_out_len
    };
    let out = &resp.as_slice()[0..n];
    proof {
        assert(out@ =~= resp@.take(n as int));
    }
    match mem.try_write_mem(pkt_out, out) {
        Ok(()) => Ok(()),
        Err(_) => Err(HandlerError::WriteFault),
    }
}

/// `vmbus_msg_comp(pkt, pkt_len, pkt_out, pkt_out_len, conn_id)`: post a
/// raw channel message and capture the host's reply.
///
/// The reply bytes are copied back into `pkt_out` (truncated to
/// `pkt_out_len`), which makes them visible to the program as an output
/// argument.
///
/// A host that sends no reply within the bounded wait is normal, not
/// an error: `pkt_out` is simply left untouched.
pub fn vmbus_msg_comp<
    C: HypercallTrait,
    M: RingMem,
    H: ConnectResultHandler,
    G: SafeMemoryMap,
    F: FnOnce() -> core::result::Result<Boot<C>, TmkError>,
>(
    cell: &mut Option<VmbusSession<C, M>>,
    boot: F,
    state: &mut VmbusState<H>,
    mem: &mut G,
    pkt: usize,
    pkt_len: usize,
    pkt_out: usize,
    pkt_out_len: usize,
    conn_id: u64,
) -> (r: Handled<()>)
    requires
        cell_wf(*old(cell)),
        call_requires(boot, ()),
    ensures
        cell_wf(*final(cell)),
        exists|
            mid: Option<VmbusSession<C, M>>,
            mid_state: VmbusState<H>,
            mid_mem: G,
            got: Handled<Seq<u8>>,
        | #[trigger]
            staged(
                boot,
                (*old(cell), mid),
                (*old(state), mid_state),
                (*old(mem), mid_mem),
                pkt,
                pkt_len,
                got,
            ) && match got {
                Err(e) => {
                    &&& r == Err::<(), HandlerError>(e)
                    &&& *final(cell) == mid
                    &&& *final(state) == mid_state
                    &&& *final(mem) == mid_mem
                },
                Ok(msg) => {
                    &&& mid is Some
                    &&& *final(cell) is Some
                    &&& msg_answered(
                        (mid->0, final(cell)->0),
                        (mid_state, *final(state)),
                        (mid_mem, *final(mem)),
                        fuzz::resolved_id(old(state).connection, conn_id),
                        msg,
                        (pkt_out, pkt_out_len),
                        r,
                    )
                },
            },
{
    let connection_id = fuzz::resolve_connection_id(&state.connection, conn_id);
    let got = stage(cell, boot, state, mem, pkt, pkt_len);
    let ghost mid = *cell;
    let ghost mid_state = *state;
    let ghost mid_mem = *mem;
    proof {
        assert(staged(
            boot,
            (*old(cell), mid),
            (*old(state), mid_state),
            (*old(mem), mid_mem),
            pkt,
            pkt_len,
            functions::bytes_got(got),
        ));
    }
    let msg = match got {
        Ok(msg) => msg,
        Err(e) => return Err(e),
    };
    match cell {
        Some(session) => post_and_answer(
            session,
            state,
            mem,
            connection_id,
            msg.as_slice(),
            pkt_out,
            pkt_out_len,
        ),
        None => Ok(()),
    }
}

// ---------------------------------------------------------------------------
// Ring packets
// ---------------------------------------------------------------------------
/// `d` with its type field set to `packet_type`.
pub open spec fn typed_descriptor(d: Seq<u8>, packet_type: u16) -> Seq<u8> {
    packet_type.wire() + d.skip(2)
}

/// Reading a descriptor went like this: none is read where the program
/// gives no address; the type of one that is read is replaced.
pub open spec fn descriptor_read<G: SafeMemoryMap>(
    mem: (G, G),
    pkt_desc: usize,
    packet_type: u16,
    r: Handled<Option<Seq<u8>>>,
) -> bool {
    if pkt_desc == 0 {
        &&& r == Ok::<Option<Seq<u8>>, HandlerError>(None)
        &&& mem.1 == mem.0
    } else {
        match r {
            Ok(d) => exists|raw: Seq<u8>| #[trigger]
                mem.0.mem_read(pkt_desc, 16, Some(raw), mem.1) && raw.len() == 16 && d == Some(
                    typed_descriptor(raw, packet_type),
                ),
            Err(e) => e == HandlerError::ReadFault && mem.0.mem_read(pkt_desc, 16, None, mem.1),
        }
    }
}

/// The descriptor that was read, if one was.
pub open spec fn descriptor_got(r: Handled<Option<[u8; 16]>>) -> Handled<Option<Seq<u8>>> {
    match r {
        Ok(d) => Ok(packet::given_bytes(d)),
        Err(e) => Err(e),
    }
}

/// A descriptor that was read.
proof fn lemma_descriptor_read<G: SafeMemoryMap>(
    mem: (G, G),
    pkt_desc: usize,
    packet_type: u16,
    raw: Seq<u8>,
)
    requires
        pkt_desc != 0,
        raw.len() == 16,
        mem.0.mem_read(pkt_desc, 16, Some(raw), mem.1),
    ensures
        descriptor_read(
            mem,
            pkt_desc,
            packet_type,
            Ok(Some(typed_descriptor(raw, packet_type))),
        ),
{
}

/// Read the descriptor at `pkt_desc`, if there is one, and force its type
/// to `packet_type`, so that the body the program generated matches the
/// type the host will dispatch on.
fn read_descriptor<G: SafeMemoryMap>(mem: &mut G, pkt_desc: usize, packet_type: u16) -> (r: Handled<
    Option<[u8; PACKET_DESCRIPTOR_SIZE]>,
>)
    ensures
        descriptor_read((*old(mem), *final(mem)), pkt_desc, packet_type, descriptor_got(r)),
{
    if pkt_desc == 0 {
        return Ok(None);
    }
    let mut desc: [u8; 16] = [0;16];
    match mem.try_read_mem(pkt_desc, &mut desc) {
        Ok(()) => {},
        Err(_) => return Err(HandlerError::ReadFault),
    }
    let ghost raw = desc@;
    let ty = packet_type.as_bytes();
    proof {
        packet_type.lemma_wire_len();
        lemma_descriptor_read((*old(mem), *mem), pkt_desc, packet_type, raw);
    }
    desc[0] = ty[0];
    desc[1] = ty[1];
    proof {
        assert(desc@ =~= typed_descriptor(raw, packet_type));
    }
    Ok(Some(desc))
}

/// The packet that [`vmbus_packet`] sends over a channel.
pub open spec fn program_packet<M: RingMem>(
    chan: RawChannel<M>,
    descriptor: Option<Seq<u8>>,
    packet_type: u16,
    payload: Seq<u8>,
) -> OutPacket {
    match descriptor {
        Some(d) => packet::raw_packet(d, payload),
        None => OutPacket {
            packet_type: PacketType(packet_type),
            ext_header: Seq::empty(),
            payload,
            flags: PacketFlags(0),
            transaction_id: chan.next_transaction_id,
            verbatim: None,
        },
    }
}

/// Sending a packet over the session's channel went like this.
pub open spec fn packet_sent<C: HypercallTrait, M: RingMem>(
    session: (VmbusSession<C, M>, VmbusSession<C, M>),
    descriptor: Option<Seq<u8>>,
    packet_type: u16,
    payload: Seq<u8>,
    r: Handled<()>,
) -> bool {
    &&& session.0.ctx.ran_to(session.1.ctx)
    &&& session.1.offers == session.0.offers
    &&& session.0.chan is Some
    &&& session.1.chan is Some
    &&& session.1.chan->0.next_transaction_id == (if descriptor is None {
        fuzz::following(session.0.chan->0.next_transaction_id)
    } else {
        session.0.chan->0.next_transaction_id
    })
    &&& exists|sent: Result<()>| #[trigger]
        session.0.chan->0.sent(
            program_packet(session.0.chan->0, descriptor, packet_type, payload),
            (session.0.ctx.log(), session.1.ctx.log()),
            session.1.chan->0,
            sent,
        ) && r == bus(sent)
}

/// Send a packet over the session's channel.
fn send_over_channel<C: HypercallTrait, M: RingMem>(
    session: &mut VmbusSession<C, M>,
    descriptor: Option<[u8; PACKET_DESCRIPTOR_SIZE]>,
    packet_type: u16,
    payload: &[u8],
) -> (r: Handled<()>)
    requires
        old(session).wf(),
        old(session).chan is Some,
    ensures
        old(session).ctx.ran_to(final(session).ctx),
        final(session).wf(),
        packet_sent(
            (*old(session), *final(session)),
            packet::given_bytes(descriptor),
            packet_type,
            payload@,
            r,
        ),
{
    let ghost p = program_packet(
        session.chan->0,
        packet::given_bytes(descriptor),
        packet_type,
        payload@,
    );
    match &mut session.chan {
        Some(chan) => {
            let sent = match descriptor {
                Some(d) => chan.send_raw_packet(&mut session.ctx, &d, payload),
                None => chan.send_packet(
                    &mut session.ctx,
                    PacketType(packet_type),
                    payload,
                    PacketFlags::new(),
                ),
            };
            proof {
                assert(old(session).chan->0.sent(
                    p,
                    (old(session).ctx.log(), session.ctx.log()),
                    *chan,
                    sent,
                ));
            }
            match sent {
                Ok(()) => Ok(()),
                Err(e) => Err(HandlerError::Bus(e)),
            }
        },
        None => Ok(()),
    }
}

/// Sending a packet went like this: a session is brought up and a channel
/// opened if need be, and the packet sent over it.
pub open spec fn packet_carried<
    C: HypercallTrait,
    M: RingMem,
    H: ConnectResultHandler,
    F: FnOnce() -> core::result::Result<Boot<C>, TmkError>,
    A: FnOnce() -> Option<RingRegion<M>>,
>(
    boot: F,
    rings: A,
    cell: (Option<VmbusSession<C, M>>, Option<VmbusSession<C, M>>),
    state: (VmbusState<H>, VmbusState<H>),
    descriptor: Option<Seq<u8>>,
    packet_type: u16,
    payload: Seq<u8>,
    r: Handled<()>,
) -> bool {
    exists|mid: Option<VmbusSession<C, M>>, mid_state: VmbusState<H>, up: Handled<()>| #[trigger]
        session_up(boot, (cell.0, mid), (state.0, mid_state), up) && match up {
            Err(e) => {
                &&& r == Err::<(), HandlerError>(e)
                &&& cell.1 == mid
                &&& state.1 == mid_state
            },
            Ok(_) => {
                &&& mid is Some
                &&& cell.1 is Some
                &&& channel_carried(
                    rings,
                    (mid->0, cell.1->0),
                    (mid_state, state.1),
                    descriptor,
                    packet_type,
                    payload,
                    r,
                )
            },
        }
}

/// Sending a packet over the session went like this: a channel is opened
/// if need be, and the packet sent over it.
pub open spec fn channel_carried<
    C: HypercallTrait,
    M: RingMem,
    H: ConnectResultHandler,
    A: FnOnce() -> Option<RingRegion<M>>,
>(
    rings: A,
    session: (VmbusSession<C, M>, VmbusSession<C, M>),
    state: (VmbusState<H>, VmbusState<H>),
    descriptor: Option<Seq<u8>>,
    packet_type: u16,
    payload: Seq<u8>,
    r: Handled<()>,
) -> bool {
    exists|mid: VmbusSession<C, M>, ready: Handled<()>| #[trigger]
        channel_up(rings, (session.0, mid), state, ready) && match ready {
            Err(e) => r == Err::<(), HandlerError>(e) && session.1 == mid,
            Ok(_) => packet_sent((mid, session.1), descriptor, packet_type, payload, r),
        }
}

/// A channel, and the packet over it.
proof fn lemma_channel_carried<
    C: HypercallTrait,
    M: RingMem,
    H: ConnectResultHandler,
    A: FnOnce() -> Option<RingRegion<M>>,
>(
    rings: A,
    session: (VmbusSession<C, M>, VmbusSession<C, M>),
    state: (VmbusState<H>, VmbusState<H>),
    descriptor: Option<Seq<u8>>,
    packet_type: u16,
    payload: Seq<u8>,
    r: Handled<()>,
    mid: VmbusSession<C, M>,
    ready: Handled<()>,
)
    requires
        channel_up(rings, (session.0, mid), state, ready),
        match ready {
            Err(e) => r == Err::<(), HandlerError>(e) && session.1 == mid,
            Ok(_) => packet_sent((mid, session.1), descriptor, packet_type, payload, r),
        },
    ensures
        channel_carried(rings, session, state, descriptor, packet_type, payload, r),
{
}

/// Open the session's channel if need be, and send a packet over it.
fn carry_packet<
    C: HypercallTrait,
    M: RingMem,
    H: ConnectResultHandler,
    A: FnOnce() -> Option<RingRegion<M>>,
>(
    session: &mut VmbusSession<C, M>,
    rings: A,
    state: &mut VmbusState<H>,
    descriptor: Option<[u8; PACKET_DESCRIPTOR_SIZE]>,
    packet_type: u16,
    payload: &[u8],
) -> (r: Handled<()>)
    requires
        old(session).wf(),
        allocates(rings),
    ensures
        old(session).ctx.ran_to(final(session).ctx),
        final(session).wf(),
        channel_carried(
            rings,
            (*old(session), *final(session)),
            (*old(state), *final(state)),
            packet::given_bytes(descriptor),
            packet_type,
            payload@,
            r,
        ),
{
    let ready = with_channel(session, rings, state);
    let ghost mid = *session;
    let r = match ready {
        Ok(()) => send_over_channel(session, descriptor, packet_type, payload),
        Err(e) => Err(e),
    };
    proof {
        lemma_channel_carried(
            rings,
            (*old(session), *session),
            (*old(state), *state),
            packet::given_bytes(descriptor),
            packet_type,
            payload@,
            r,
            mid,
            ready,
        );
    }
    r
}

/// A session, and the packet over it.
proof fn lemma_packet_carried<
    C: HypercallTrait,
    M: RingMem,
    H: ConnectResultHandler,
    F: FnOnce() -> core::result::Result<Boot<C>, TmkError>,
    A: FnOnce() -> Option<RingRegion<M>>,
>(
    boot: F,
    rings: A,
    cell: (Option<VmbusSession<C, M>>, Option<VmbusSession<C, M>>),
    state: (VmbusState<H>, VmbusState<H>),
    descriptor: Option<Seq<u8>>,
    packet_type: u16,
    payload: Seq<u8>,
    r: Handled<()>,
    mid: Option<VmbusSession<C, M>>,
    mid_state: VmbusState<H>,
    up: Handled<()>,
)
    requires
        session_up(boot, (cell.0, mid), (state.0, mid_state), up),
        match up {
            Err(e) => {
                &&& r == Err::<(), HandlerError>(e)
                &&& cell.1 == mid
                &&& state.1 == mid_state
            },
            Ok(_) => {
                &&& mid is Some
                &&& cell.1 is Some
                &&& channel_carried(
                    rings,
                    (mid->0, cell.1->0),
                    (mid_state, state.1),
                    descriptor,
                    packet_type,
                    payload,
                    r,
                )
            },
        },
    ensures
        packet_carried(boot, rings, cell, state, descriptor, packet_type, payload, r),
{
}

/// `vmbus_packet(pkt, pkt_len, pkt_desc, pkt_type)`: write a packet into
/// the channel's send ring.
///
/// * `pkt` / `pkt_len`: the packet payload.
/// * `pkt_desc`: address of a 16-byte
///   [`crate::protocol::PacketDescriptor`] to emit **verbatim**, or `0`
///   to have the ring build a self-consistent one.
/// * `pkt_type`: the packet type. When `pkt_desc` is supplied, this
///   overwrites the descriptor's type field, so the program's typed
///   packet-body variants still line up with the type the host sees.
pub fn vmbus_packet<
    C: HypercallTrait,
    M: RingMem,
    H: ConnectResultHandler,
    G: SafeMemoryMap,
    F: FnOnce() -> core::result::Result<Boot<C>, TmkError>,
    A: FnOnce() -> Option<RingRegion<M>>,
>(
    cell: &mut Option<VmbusSession<C, M>>,
    boot: F,
    rings: A,
    state: &mut VmbusState<H>,
    mem: &mut G,
    pkt: usize,
    pkt_len: usize,
    pkt_desc: usize,
    pkt_type: u64,
) -> (r: Handled<()>)
    requires
        cell_wf(*old(cell)),
        call_requires(boot, ()),
        allocates(rings),
    ensures
        cell_wf(*final(cell)),
        exists|mid_mem: G, read: Handled<Seq<u8>>| #[trigger]
            functions::input_read(
                (*old(mem), mid_mem),
                pkt,
                pkt_len,
                MAX_FUZZ_PKT_LEN,
                read,
            ) && match read {
                Err(e) => {
                    &&& r == Err::<(), HandlerError>(e)
                    &&& *final(mem) == mid_mem
                    &&& *final(cell) == *old(cell)
                    &&& *final(state) == *old(state)
                },
                Ok(payload) => exists|d: Handled<Option<Seq<u8>>>| #[trigger]
                    descriptor_read(
                        (mid_mem, *final(mem)),
                        pkt_desc,
                        (pkt_type % 65536) as u16,
                        d,
                    ) && match d {
                        Err(e) => {
                            &&& r == Err::<(), HandlerError>(e)
                            &&& *final(cell) == *old(cell)
                            &&& *final(state) == *old(state)
                        },
                        Ok(descriptor) => packet_carried(
                            boot,
                            rings,
                            (*old(cell), *final(cell)),
                            (*old(state), *final(state)),
                            descriptor,
                            (pkt_type % 65536) as u16,
                            payload,
                            r,
                        ),
                    },
            },
{
    let packet_type = (pkt_type % 65536) as u16;
    let read = read_input(mem, pkt, pkt_len, MAX_FUZZ_PKT_LEN);
    let ghost mid_mem = *mem;
    proof {
        assert(functions::input_read(
            (*old(mem), mid_mem),
            pkt,
            pkt_len,
            MAX_FUZZ_PKT_LEN,
            functions::bytes_got(read),
        ));
    }
    let payload = match read {
        Ok(payload) => payload,
        Err(e) => return Err(e),
    };
    let got = read_descriptor(mem, pkt_desc, packet_type);
    proof {
        assert(descriptor_read((mid_mem, *mem), pkt_desc, packet_type, descriptor_got(got)));
    }
    let descriptor = match got {
        Ok(descriptor) => descriptor,
        Err(e) => return Err(e),
    };
    let up = with_session(cell, boot, state);
    let ghost mid = *cell;
    let ghost mid_state = *state;
    let r = match up {
        Ok(()) => match cell {
            Some(session) => carry_packet(
                session,
                rings,
                state,
                descriptor,
                packet_type,
                payload.as_slice(),
            ),
            None => Ok(()),
        },
        Err(e) => Err(e),
    };
    proof {
        lemma_packet_carried(
            boot,
            rings,
            (*old(cell), *cell),
            (*old(state), *state),
            packet::given_bytes(descriptor),
            packet_type,
            payload@,
            r,
            mid,
            mid_state,
            up,
        );
    }
    r
}

// ---------------------------------------------------------------------------
// Reopening the channel
// ---------------------------------------------------------------------------
/// Closing the session's channel, if it has one, went like this. `freed`
/// is the ring region that is no longer in use.
pub open spec fn channel_closed<C: HypercallTrait, M: RingMem, H: ConnectResultHandler>(
    session: (VmbusSession<C, M>, VmbusSession<C, M>),
    state: (VmbusState<H>, VmbusState<H>),
    freed: Option<u64>,
) -> bool {
    &&& session.0.ctx.ran_to(session.1.ctx)
    &&& session.1.offers == session.0.offers
    &&& session.1.chan is None
    &&& match session.0.chan {
        None => {
            &&& freed is None
            &&& session.1.ctx == session.0.ctx
            &&& state.1 == state.0
        },
        Some(c) => freed == Some(c.base_gpa) && exists|closed: Result<()>| #[trigger]
            fuzz::raw_closed(
                state,
                (session.0.ctx.log(), session.1.ctx.log()),
                c.link.channel,
                closed,
            ),
    }
}

/// A channel that was closed.
proof fn lemma_channel_closed<C: HypercallTrait, M: RingMem, H: ConnectResultHandler>(
    session: (VmbusSession<C, M>, VmbusSession<C, M>),
    state: (VmbusState<H>, VmbusState<H>),
    closed: Result<()>,
)
    requires
        session.0.ctx.ran_to(session.1.ctx),
        session.1.offers == session.0.offers,
        session.1.chan is None,
        session.0.chan is Some,
        fuzz::raw_closed(
            state,
            (session.0.ctx.log(), session.1.ctx.log()),
            session.0.chan->0.link.channel,
            closed,
        ),
    ensures
        channel_closed(session, state, Some(session.0.chan->0.base_gpa)),
{
}

/// Close the session's channel, if it has one, whatever comes of it.
/// Gives the address of the ring region that is no longer in use, for the
/// platform to free.
fn close_session_channel<C: HypercallTrait, M: RingMem, H: ConnectResultHandler>(
    session: &mut VmbusSession<C, M>,
    state: &mut VmbusState<H>,
) -> (freed: Option<u64>)
    ensures
        old(session).ctx.ran_to(final(session).ctx),
        final(session).wf(),
        channel_closed((*old(session), *final(session)), (*old(state), *final(state)), freed),
{
    match session.chan.take() {
        Some(chan) => {
            let base = chan.base_gpa;
            let closed = chan.close(&mut session.ctx, state);
            proof {
                lemma_channel_closed((*old(session), *session), (*old(state), *state), closed);
            }
            Some(base)
        },
        None => None,
    }
}

/// Closing and reopening the channel of a session went like this.
pub open spec fn reopened<
    C: HypercallTrait,
    M: RingMem,
    H: ConnectResultHandler,
    A: FnOnce() -> Option<RingRegion<M>>,
>(
    rings: A,
    session: (VmbusSession<C, M>, VmbusSession<C, M>),
    state: (VmbusState<H>, VmbusState<H>),
    freed: Option<u64>,
    r: Handled<()>,
) -> bool {
    exists|mid: VmbusSession<C, M>, mid_state: VmbusState<H>| #[trigger]
        channel_closed((session.0, mid), (state.0, mid_state), freed) && channel_opened(
            rings,
            (mid, session.1),
            (mid_state, state.1),
            r,
        )
}

/// A close, and the open after it.
proof fn lemma_reopened<
    C: HypercallTrait,
    M: RingMem,
    H: ConnectResultHandler,
    A: FnOnce() -> Option<RingRegion<M>>,
>(
    rings: A,
    session: (VmbusSession<C, M>, VmbusSession<C, M>),
    state: (VmbusState<H>, VmbusState<H>),
    freed: Option<u64>,
    r: Handled<()>,
    mid: VmbusSession<C, M>,
    mid_state: VmbusState<H>,
)
    requires
        channel_closed((session.0, mid), (state.0, mid_state), freed),
        channel_opened(rings, (mid, session.1), (mid_state, state.1), r),
    ensures
        reopened(rings, session, state, freed, r),
{
}

/// Close and reopen the channel of a session.
fn reopen<
    C: HypercallTrait,
    M: RingMem,
    H: ConnectResultHandler,
    A: FnOnce() -> Option<RingRegion<M>>,
>(
    session: &mut VmbusSession<C, M>,
    rings: A,
    state: &mut VmbusState<H>,
) -> (r: (Option<u64>, Handled<()>))
    requires
        allocates(rings),
    ensures
        old(session).ctx.ran_to(final(session).ctx),
        final(session).wf(),
        reopened(
            rings,
            (*old(session), *final(session)),
            (*old(state), *final(state)),
            r.0,
            r.1,
        ),
{
    let freed = close_session_channel(session, state);
    let ghost mid = *session;
    let ghost mid_state = *state;
    let opened = open_session_channel(session, rings, state);
    proof {
        lemma_reopened(
            rings,
            (*old(session), *session),
            (*old(state), *state),
            freed,
            opened,
            mid,
            mid_state,
        );
    }
    (freed, opened)
}

/// `vmbus_reopen_channel()`: close and reopen the ring channel.
///
/// Exercises the host's open/close path repeatedly and gives the program
/// a way to recover a ring that an earlier packet wedged. Besides what
/// came of it, gives the address of the ring region that is no longer in
/// use, for the platform to free.
pub fn vmbus_reopen_channel<
    C: HypercallTrait,
    M: RingMem,
    H: ConnectResultHandler,
    F: FnOnce() -> core::result::Result<Boot<C>, TmkError>,
    A: FnOnce() -> Option<RingRegion<M>>,
>(
    cell: &mut Option<VmbusSession<C, M>>,
    boot: F,
    rings: A,
    state: &mut VmbusState<H>,
) -> (r: (Option<u64>, Handled<()>))
    requires
        cell_wf(*old(cell)),
        call_requires(boot, ()),
        allocates(rings),
    ensures
        cell_wf(*final(cell)),
        exists|mid: Option<VmbusSession<C, M>>, mid_state: VmbusState<H>, up: Handled<()>|
            #[trigger]
            session_up(boot, (*old(cell), mid), (*old(state), mid_state), up) && match up {
                Err(e) => {
                    &&& r.0 is None
                    &&& r.1 == Err::<(), HandlerError>(e)
                    &&& *final(cell) == mid
                    &&& *final(state) == mid_state
                },
                Ok(_) => {
                    &&& mid is Some
                    &&& *final(cell) is Some
                    &&& reopened(
                        rings,
                        (mid->0, final(cell)->0),
                        (mid_state, *final(state)),
                        r.0,
                        r.1,
                    )
                },
            },
{
    let up = with_session(cell, boot, state);
    proof {
        assert(session_up(boot, (*old(cell), *cell), (*old(state), *state), up));
    }
    match up {
        Ok(()) => {},
        Err(e) => return (None, Err(e)),
    }
    match cell {
        Some(session) => reopen(session, rings, state),
        None => (None, Ok(())),
    }
}

// ---------------------------------------------------------------------------
// Relids
// ---------------------------------------------------------------------------
/// The cursor after `n` steps.
pub open spec fn stepped(cursor: usize, n: nat) -> usize {
    ((cursor + n) % (usize::MAX + 1)) as usize
}

/// The bytes of the `n` ids from the cursor on, the list taken round and
/// round.
pub open spec fn relid_bytes(ids: Seq<u32>, cursor: usize, n: nat) -> Seq<u8>
    decreases n,
{
    if n == 0 {
        Seq::empty()
    } else {
        relid_bytes(ids, cursor, (n - 1) as nat) + ids[stepped(cursor, (n - 1) as nat) as int
            % ids.len() as int].wire()
    }
}

/// The bytes of the next [`FILL_RELIDS_COUNT`] ids, moving the cursor on.
pub fn next_relids(ids: &[u32], cursor: &mut usize) -> (r: Vec<u8>)
    requires
        ids@.len() > 0,
    ensures
        r@ == relid_bytes(ids@, *old(cursor), FILL_RELIDS_COUNT as nat),
        *final(cursor) == stepped(*old(cursor), FILL_RELIDS_COUNT as nat),
{
    let ghost first = *cursor;
    let mut out: Vec<u8> = Vec::new();
    let mut i: usize = 0;
    proof {
        vstd::arithmetic::div_mod::lemma_small_mod(first as nat, (usize::MAX + 1) as nat);
    }
    while i < FILL_RELIDS_COUNT
        invariant
            i <= FILL_RELIDS_COUNT,
            ids@.len() > 0,
            first == *old(cursor),
            *cursor == stepped(first, i as nat),
            out@ == relid_bytes(ids@, first, i as nat),
        decreases FILL_RELIDS_COUNT - i,
    {
        let at = *cursor % ids.len();
        ids[at].write_to(&mut out);
        *cursor = cursor.wrapping_add(1);
        i += 1;
        proof {
            lemma_stepped(first, (i - 1) as nat);
        }
    }
    out
}

/// One step more.
proof fn lemma_stepped(cursor: usize, n: nat)
    ensures
        stepped(cursor, n + 1) == if stepped(cursor, n) == usize::MAX {
            0
        } else {
            stepped(cursor, n) + 1
        },
{
    let m = usize::MAX + 1;
    vstd::arithmetic::div_mod::lemma_fundamental_div_mod(cursor + n, m);
    let q = (cursor + n) / m;
    let k = (cursor + n) % m;
    if k == m - 1 {
        assert(cursor + n + 1 == m * (q + 1) + 0) by (nonlinear_arith)
            requires
                cursor + n == m * q + k,
                k == m - 1,
        ;
        vstd::arithmetic::div_mod::lemma_fundamental_div_mod_converse(
            cursor + n + 1,
            m,
            q + 1,
            0,
        );
    } else {
        assert(cursor + n + 1 == q * m + (k + 1)) by (nonlinear_arith)
            requires
                cursor + n == m * q + k,
        ;
        vstd::arithmetic::div_mod::lemma_fundamental_div_mod_converse(
            cursor + n + 1,
            m,
            q,
            k + 1,
        );
    }
}

/// Law: successive fills walk the offer list. As long as the cursor does
/// not wrap, every id comes up within as many steps as there are ids.
pub proof fn law_relids_cover(ids: Seq<u32>, cursor: usize, i: int) -> (n: nat)
    requires
        0 <= i < ids.len(),
        cursor + ids.len() <= usize::MAX,
    ensures
        n < ids.len(),
        stepped(cursor, n) as int % ids.len() as int == i,
{
    let len = ids.len() as int;
    let c = cursor as int % len;
    let n = if i >= c {
        i - c
    } else {
        i - c + len
    };
    vstd::arithmetic::div_mod::lemma_fundamental_div_mod(cursor as int, len);
    let q = cursor as int / len;
    if i >= c {
        assert(cursor + n == q * len + i) by (nonlinear_arith)
            requires
                cursor == len * q + c,
                n == i - c,
        ;
        vstd::arithmetic::div_mod::lemma_fundamental_div_mod_converse(cursor + n, len, q, i);
    } else {
        assert(cursor + n == (q + 1) * len + i) by (nonlinear_arith)
            requires
                cursor == len * q + c,
                n == i - c + len,
        ;
        vstd::arithmetic::div_mod::lemma_fundamental_div_mod_converse(cursor + n, len, q + 1, i);
    }
    vstd::arithmetic::div_mod::lemma_small_mod((cursor + n) as nat, (usize::MAX + 1) as nat);
    n as nat
}

/// `vmbus_fill_relids(relids)`: write [`FILL_RELIDS_COUNT`] real
/// `child_relid` values into the program's buffer.
///
/// Without this the program would have to guess relids, and essentially
/// every generated channel message would be rejected by the host's
/// first validity check. Successive calls walk the offer list so a
/// program can reach more than one channel; `cursor` is where the next
/// call goes on.
pub fn vmbus_fill_relids<
    C: HypercallTrait,
    M: RingMem,
    H: ConnectResultHandler,
    G: SafeMemoryMap,
    F: FnOnce() -> core::result::Result<Boot<C>, TmkError>,
>(
    cell: &mut Option<VmbusSession<C, M>>,
    boot: F,
    state: &mut VmbusState<H>,
    mem: &mut G,
    cursor: &mut usize,
    relids_ptr: usize,
) -> (r: Handled<()>)
    requires
        cell_wf(*old(cell)),
        call_requires(boot, ()),
    ensures
        cell_wf(*final(cell)),
        if relids_ptr == 0 {
            &&& r == Err::<(), HandlerError>(HandlerError::NullPointer)
            &&& *final(cell) == *old(cell)
            &&& *final(state) == *old(state)
            &&& *final(mem) == *old(mem)
            &&& *final(cursor) == *old(cursor)
        } else {
            exists|up: Handled<()>| #[trigger]
                session_up(
                    boot,
                    (*old(cell), *final(cell)),
                    (*old(state), *final(state)),
                    up,
                ) && match up {
                    Err(e) => {
                        &&& r == Err::<(), HandlerError>(e)
                        &&& *final(mem) == *old(mem)
                        &&& *final(cursor) == *old(cursor)
                    },
                    Ok(_) => {
                        &&& *final(cell) is Some
                        &&& if final(cell)->0.offers@.len() == 0 {
                            &&& r == Err::<(), HandlerError>(HandlerError::NoOffers)
                            &&& *final(mem) == *old(mem)
                            &&& *final(cursor) == *old(cursor)
                        } else {
                            &&& *final(cursor) == stepped(*old(cursor), FILL_RELIDS_COUNT as nat)
                            &&& old(mem).mem_written(
                                relids_ptr,
                                relid_bytes(
                                    final(cell)->0.offers@.map_values(
                                        |o: OfferChannel| o.channel_id.0,
                                    ),
                                    *old(cursor),
                                    FILL_RELIDS_COUNT as nat,
                                ),
                                r is Ok,
                                *final(mem),
                            )
                            &&& r matches Err(e) ==> e == HandlerError::WriteFault
                        }
                    },
                }
        },
{
    if relids_ptr == 0 {
        return Err(HandlerError::NullPointer);
    }
    let up = with_session(cell, boot, state);
    proof {
        assert(session_up(boot, (*old(cell), *cell), (*old(state), *state), up));
    }
    match up {
        Ok(()) => {},
        Err(e) => return Err(e),
    }
    let ids = match cell {
        Some(session) => fuzz::relids(session.offers.as_slice()),
        None => Vec::new(),
    };
    if ids.len() == 0 {
        return Err(HandlerError::NoOffers);
    }
    let buf = next_relids(ids.as_slice(), cursor);
    match mem.try_write_mem(relids_ptr, buf.as_slice()) {
        Ok(()) => Ok(()),
        Err(_) => Err(HandlerError::WriteFault),
    }
}

// ---------------------------------------------------------------------------
// Testcase boundaries
// ---------------------------------------------------------------------------
/// Negotiating anew and asking for the offers went like this.
pub open spec fn reconnected<H: ConnectResultHandler>(
    state: (VmbusState<H>, VmbusState<H>),
    log: (Seq<HvEvent>, Seq<HvEvent>),
    r: Result<Seq<OfferChannel>>,
) -> bool {
    exists|mid: VmbusState<H>, mid_log: Seq<HvEvent>, up: Result<()>| #[trigger]
        connection::initiated((state.0, mid), (log.0, mid_log), up) && match up {
            Err(e) => {
                &&& r == Err::<Seq<OfferChannel>, Error>(e)
                &&& state.1 == mid
                &&& log.1 == mid_log
            },
            Ok(_) => connection::offers_asked((mid, state.1), (mid_log, log.1), r),
        }
}

/// Negotiation, and what came after it.
proof fn lemma_reconnected<H: ConnectResultHandler>(
    state: (VmbusState<H>, VmbusState<H>),
    log: (Seq<HvEvent>, Seq<HvEvent>),
    r: Result<Seq<OfferChannel>>,
    mid: VmbusState<H>,
    mid_log: Seq<HvEvent>,
    up: Result<()>,
)
    requires
        connection::initiated((state.0, mid), (log.0, mid_log), up),
        match up {
            Err(e) => {
                &&& r == Err::<Seq<OfferChannel>, Error>(e)
                &&& state.1 == mid
                &&& log.1 == mid_log
            },
            Ok(_) => connection::offers_asked((mid, state.1), (mid_log, log.1), r),
        },
    ensures
        reconnected(state, log, r),
{
}

/// Bring the connection back up on the same SynIC + context.
fn reconnect<C: HypercallTrait, H: ConnectResultHandler>(
    ctx: &mut HvCtx<C>,
    state: &mut VmbusState<H>,
) -> (r: Result<Vec<OfferChannel>>)
    ensures
        old(ctx).ran_to(*final(ctx)),
        reconnected(
            (*old(state), *final(state)),
            (old(ctx).log(), final(ctx).log()),
            connection::offers_got(r),
        ),
        r is Ok ==> final(state).connection is Some,
{
    let up = connection::initiate(ctx, state);
    let ghost mid = *state;
    let ghost mid_log = ctx.log();
    let r = match up {
        Ok(()) => crate::request_offers(ctx, state),
        Err(e) => Err(e),
    };
    proof {
        lemma_reconnected(
            (*old(state), *state),
            (old(ctx).log(), ctx.log()),
            connection::offers_got(r),
            mid,
            mid_log,
            up,
        );
    }
    r
}

/// Cycling the connection went like this: one that is there is unloaded,
/// whatever comes of it, before the guest negotiates anew.
pub open spec fn cycled<H: ConnectResultHandler>(
    state: (VmbusState<H>, VmbusState<H>),
    log: (Seq<HvEvent>, Seq<HvEvent>),
    r: Result<Seq<OfferChannel>>,
) -> bool {
    if state.0.connection is None {
        reconnected(state, log, r)
    } else {
        exists|mid: VmbusState<H>, mid_log: Seq<HvEvent>, gone: Result<()>| #[trigger]
            connection::unloaded((state.0, mid), (log.0, mid_log), gone) && reconnected(
                (mid, state.1),
                (mid_log, log.1),
                r,
            )
    }
}

/// An unload, and the negotiation after it.
proof fn lemma_cycled<H: ConnectResultHandler>(
    state: (VmbusState<H>, VmbusState<H>),
    log: (Seq<HvEvent>, Seq<HvEvent>),
    r: Result<Seq<OfferChannel>>,
    mid: VmbusState<H>,
    mid_log: Seq<HvEvent>,
    gone: Result<()>,
)
    requires
        state.0.connection is Some,
        connection::unloaded((state.0, mid), (log.0, mid_log), gone),
        reconnected((mid, state.1), (mid_log, log.1), r),
    ensures
        cycled(state, log, r),
{
}

/// Tear the connection down, so that host and guest agree on a clean
/// slate, and bring it back up.
fn cycle_connection<C: HypercallTrait, H: ConnectResultHandler>(
    ctx: &mut HvCtx<C>,
    state: &mut VmbusState<H>,
) -> (r: Result<Vec<OfferChannel>>)
    ensures
        old(ctx).ran_to(*final(ctx)),
        cycled(
            (*old(state), *final(state)),
            (old(ctx).log(), final(ctx).log()),
            connection::offers_got(r),
        ),
        r is Ok ==> final(state).connection is Some,
{
    if connection::connection(state).is_none() {
        return reconnect(ctx, state);
    }
    let gone = crate::unload(ctx, state);
    let ghost mid = *state;
    let ghost mid_log = ctx.log();
    let r = reconnect(ctx, state);
    proof {
        lemma_cycled(
            (*old(state), *state),
            (old(ctx).log(), ctx.log()),
            connection::offers_got(r),
            mid,
            mid_log,
            gone,
        );
    }
    r
}

/// Resetting a session went like this: stale messages are drained, the
/// channel is closed, and the connection cycled. `freed` is the ring
/// region that is no longer in use; `r` is what the host offers now.
pub open spec fn session_reset<C: HypercallTrait, M: RingMem, H: ConnectResultHandler>(
    session: VmbusSession<C, M>,
    state: (VmbusState<H>, VmbusState<H>),
    freed: Option<u64>,
    end: HvCtx<C>,
    r: Result<Seq<OfferChannel>>,
) -> bool {
    exists|
        drained: VmbusSession<C, M>,
        drained_state: VmbusState<H>,
        closed: VmbusSession<C, M>,
        closed_state: VmbusState<H>,
    |
        {
            &&& session_drained(session, state.0, drained, drained_state)
            &&& #[trigger] channel_closed(
                (drained, closed),
                (drained_state, closed_state),
                freed,
            )
            &&& closed.ctx.ran_to(end)
            &&& cycled((closed_state, state.1), (closed.ctx.log(), end.log()), r)
        }
}

/// Draining a session's stale messages went like this.
pub open spec fn session_drained<C: HypercallTrait, M: RingMem, H: ConnectResultHandler>(
    session: VmbusSession<C, M>,
    state: VmbusState<H>,
    next: VmbusSession<C, M>,
    next_state: VmbusState<H>,
) -> bool {
    &&& session.ctx.ran_to(next.ctx)
    &&& next.offers == session.offers
    &&& next.chan == session.chan
    &&& exists|d: Result<nat>| #[trigger]
        fuzz::pending_drained(
            (state, next_state),
            (session.ctx.log(), next.ctx.log()),
            RESET_DRAIN_LIMIT as nat,
            d,
        )
}

/// The steps of a reset.
proof fn lemma_session_reset<C: HypercallTrait, M: RingMem, H: ConnectResultHandler>(
    session: VmbusSession<C, M>,
    state: (VmbusState<H>, VmbusState<H>),
    freed: Option<u64>,
    end: HvCtx<C>,
    r: Result<Seq<OfferChannel>>,
    drained: VmbusSession<C, M>,
    drained_state: VmbusState<H>,
    closed: VmbusSession<C, M>,
    closed_state: VmbusState<H>,
)
    requires
        session_drained(session, state.0, drained, drained_state),
        channel_closed((drained, closed), (drained_state, closed_state), freed),
        closed.ctx.ran_to(end),
        cycled((closed_state, state.1), (closed.ctx.log(), end.log()), r),
    ensures
        session_reset(session, state, freed, end, r),
{
}

/// Resetting the session, if there is one, went like this: it comes out
/// connected anew and without a channel, or not at all.
pub open spec fn cell_reset<C: HypercallTrait, M: RingMem, H: ConnectResultHandler>(
    cell: (Option<VmbusSession<C, M>>, Option<VmbusSession<C, M>>),
    state: (VmbusState<H>, VmbusState<H>),
    freed: Option<u64>,
) -> bool {
    match cell.0 {
        None => freed is None && cell.1 is None && state.1 == state.0,
        Some(session) => match cell.1 {
            Some(next) => {
                &&& next.chan is None
                &&& state.1.connection is Some
                &&& session_reset(session, state, freed, next.ctx, Ok(next.offers@))
            },
            None => exists|end: HvCtx<C>, e: Error| #[trigger]
                session_reset(session, (state.0, state.1), freed, end, Err(e)),
        },
    }
}

/// Reset VMBus state at a testcase boundary.
///
/// The fuzzer posts arbitrary channel messages on the *live* negotiated
/// connection, so a testcase can drive host-side connection or channel
/// state that the guest's cached session never mirrors. Left in place,
/// that desync makes a later testcase's legitimate channel-open wedge.
///
/// To keep each testcase hermetic the connection is cycled at every
/// boundary, reusing the SynIC + hypercall context so the reset costs a
/// handshake rather than a full SynIC re-program:
///
/// 1. Drain and discard any host messages the previous testcase provoked
///    but never read.
/// 2. Close the ring channel if one was opened, releasing its GPADL
///    host-side.
/// 3. `Unload` the connection so the host returns to a disconnected
///    state and the guest's connection is cleared.
/// 4. Re-`InitiateContact` and re-`RequestOffers` on the same context,
///    refreshing the offer list for the next testcase.
///
/// Every step is best-effort: a testcase that already desynced the host
/// can make `InitiateContact` time out, in which case the whole session
/// is dropped so the next call rebuilds it from scratch (a fresh SynIC
/// included).
///
/// Gives the address of the ring region that is no longer in use, for the
/// platform to free.
pub fn reset_session<C: HypercallTrait, M: RingMem, H: ConnectResultHandler>(
    cell: &mut Option<VmbusSession<C, M>>,
    state: &mut VmbusState<H>,
) -> (freed: Option<u64>)
    requires
        cell_wf(*old(cell)),
    ensures
        cell_wf(*final(cell)),
        cell_reset((*old(cell), *final(cell)), (*old(state), *final(state)), freed),
{
    let mut session = match cell.take() {
        Some(session) => session,
        None => return None,
    };
    let ghost first = session;
    // 1. Clear stale host messages from the SIMP page.
    let pending = fuzz::drain_pending(&mut session.ctx, state, RESET_DRAIN_LIMIT);
    let ghost drained = session;
    let ghost drained_state = *state;
    proof {
        let d: Result<nat> = match pending {
            Ok(n) => Ok(n as nat),
            Err(e) => Err(e),
        };
        assert(fuzz::pending_drained(
            (*old(state), drained_state),
            (first.ctx.log(), drained.ctx.log()),
            RESET_DRAIN_LIMIT as nat,
            d,
        ));
    }
    // 2. Close the ring channel, releasing its GPADL.
    let freed = close_session_channel(&mut session, state);
    let ghost closed = session;
    let ghost closed_state = *state;
    // 3. and 4. Cycle the connection.
    let reconnect = cycle_connection(&mut session.ctx, state);
    proof {
        lemma_session_reset(
            first,
            (*old(state), *state),
            freed,
            session.ctx,
            connection::offers_got(reconnect),
            drained,
            drained_state,
            closed,
            closed_state,
        );
    }
    match reconnect {
        Ok(offers) => {
            session.offers = offers;
            *cell = Some(session);
        },
        Err(_) => {},
    }
    freed
}

} // verus!
