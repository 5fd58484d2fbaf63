//! Handlers that fuzz the synthetic NIC.
//!
//! On first use they lazily bring up the VMBus connection and the NIC's
//! channel (open + version negotiation + NDIS configuration + buffers +
//! RNDIS initialisation + packet filter), then keep the session alive so
//! that subsequent calls operate on a warm channel.
//!
//! * [`send_nvsp`]: post a raw, program-supplied NVSP message inband.
//! * [`send_rndis`]: send a raw, program-supplied RNDIS message over the
//!   data path.
//! * [`open_channel`]: ensure the NIC's session is established.
//! * [`renew_buffer`]: revoke and re-establish a buffer.
use crate::channel;
use crate::channel::close_channel;
use crate::connection;
use crate::devices::netvsp;
use crate::devices::netvsp::Netvsp;
use crate::devices::netvsp::OwnedBuf;
use crate::devices::netvsp::rndis::Rndis;
use crate::devices::netvsp::RingRegion;
use crate::devices::netvsp::rndis::MESSAGE_TYPE_PACKET_MSG;
use crate::devices::netvsp::rndis::NDIS_PACKET_TYPE_ALL_MULTICAST;
use crate::devices::netvsp::rndis::NDIS_PACKET_TYPE_BROADCAST;
use crate::devices::netvsp::rndis::NDIS_PACKET_TYPE_DIRECTED;
use crate::devices::netvsp::NEGOTIATION_LADDER;
use crate::devices::netvsp::RMC_CONTROL;
use crate::devices::netvsp::RMC_DATA;
use crate::error::Result;
use crate::error::TmkError;
use crate::functions;
use crate::functions::read_input;
use crate::functions::vmbus;
use crate::functions::vmbus::find_netvsp;
use crate::functions::vmbus::VmbusSession;
use crate::functions::Boot;
use crate::functions::Handled;
use crate::functions::HandlerError;
use crate::functions::NicStep;
use crate::functions::SafeMemoryMap;
use crate::hvsock::ConnectResultHandler;
use crate::hypercalls::HvCtx;
use crate::protocol::OfferChannel;
use crate::ring::RingMem;
use crate::state::VmbusState;
use crate::wire::Wire;
use vstd::prelude::*;

verus! {

broadcast use crate::hypercalls::group_ran;

/// Bit 0 of a [`send_nvsp`] / [`send_rndis`] flags argument: request a
/// completion for the posted packet. When clear, the send is
/// fire-and-forget.
pub const FLAG_REQUEST_COMPLETION: u64 = 1;

/// Upper bound on a program-supplied message length before it is staged.
/// The length arrives as untrusted input, so an unbounded buffer would
/// exhaust the heap on a garbage value.
pub const MAX_FUZZ_MSG_LEN: usize = 65536;

/// Receive-buffer size established during session bring-up.
///
/// The conventional receive buffer is 16 MiB, but the RX path is barely
/// exercised, and the buffer's GPADL is registered on **every** channel
/// reset: 256 KiB (64 PFNs, about 3 messages) is ample.
pub const RECV_BUFFER_SIZE: usize = 262144;

/// Send-buffer size established during session bring-up (1 MiB).
pub const SEND_BUFFER_SIZE: usize = 1048576;

/// MTU advertised in `SEND_NDIS_CONFIG` (standard Ethernet + VLAN).
pub const DEFAULT_MTU: u32 = 1514;

/// The packets that the NIC is to receive: directed ones
/// ([`NDIS_PACKET_TYPE_DIRECTED`]), broadcasts
/// ([`NDIS_PACKET_TYPE_BROADCAST`]) and all multicasts
/// ([`NDIS_PACKET_TYPE_ALL_MULTICAST`]).
pub const PACKET_FILTER: u32 = NDIS_PACKET_TYPE_DIRECTED + NDIS_PACKET_TYPE_BROADCAST
    + NDIS_PACKET_TYPE_ALL_MULTICAST;

/// Memory that the platform allocated for a NIC, `None` where it could
/// not.
pub struct NicMemory<M: RingMem> {
    /// Both rings.
    pub rings: Option<RingRegion<M>>,
    /// Address of [`RECV_BUFFER_SIZE`] bytes.
    pub recv_gpa: Option<u64>,
    /// Address of [`SEND_BUFFER_SIZE`] bytes.
    pub send_gpa: Option<u64>,
}

impl<M: RingMem> NicMemory<M> {
    /// The memory has the shape it must have.
    pub open spec fn usable(self) -> bool {
        &&& vmbus::usable(self.rings)
        &&& self.recv_gpa matches Some(gpa) ==> gpa + RECV_BUFFER_SIZE <= u64::MAX
        &&& self.send_gpa matches Some(gpa) ==> gpa + SEND_BUFFER_SIZE <= u64::MAX
    }
}

// ---------------------------------------------------------------------------
// Bring-up
// ---------------------------------------------------------------------------
/// Setting the packet filter, the last step, went like this.
pub open spec fn from_packet_filter<C: Rndis<M>, M: RingMem>(
    nic: Netvsp<M>,
    ctx: (HvCtx<C>, HvCtx<C>),
    r: Handled<Netvsp<M>>,
) -> bool {
    &&& ctx.0.ran_to(ctx.1)
    &&& exists|next: Netvsp<M>, done: Result<()>| #[trigger]
        C::packet_filter_set((nic, next), (ctx.0, ctx.1), PACKET_FILTER, done) && match done {
            Err(e) => r == Err::<Netvsp<M>, HandlerError>(
                HandlerError::Nic(NicStep::SetPacketFilter, e),
            ),
            Ok(_) => r == Ok::<Netvsp<M>, HandlerError>(next),
        }
}

/// Setting the packet filter, and its result.
proof fn lemma_from_packet_filter<C: Rndis<M>, M: RingMem>(
    nic: Netvsp<M>,
    ctx: (HvCtx<C>, HvCtx<C>),
    r: Handled<Netvsp<M>>,
    next: Netvsp<M>,
    done: Result<()>,
)
    requires
        ctx.0.ran_to(ctx.1),
        C::packet_filter_set((nic, next), (ctx.0, ctx.1), PACKET_FILTER, done),
        match done {
            Err(e) => r == Err::<Netvsp<M>, HandlerError>(
                HandlerError::Nic(NicStep::SetPacketFilter, e),
            ),
            Ok(_) => r == Ok::<Netvsp<M>, HandlerError>(next),
        },
    ensures
        from_packet_filter(nic, ctx, r),
{
}

/// The steps from the RNDIS initialisation on went like this.
pub open spec fn from_rndis<C: Rndis<M>, M: RingMem>(
    nic: Netvsp<M>,
    ctx: (HvCtx<C>, HvCtx<C>),
    r: Handled<Netvsp<M>>,
) -> bool {
    exists|mid_ctx: HvCtx<C>, next: Netvsp<M>, done: Result<()>| #[trigger]
        C::rndis_started((nic, next), (ctx.0, mid_ctx), done) && ctx.0.ran_to(mid_ctx)
            && match done {
            Err(e) => {
                &&& r == Err::<Netvsp<M>, HandlerError>(HandlerError::Nic(NicStep::RndisInit, e))
                &&& ctx.1 == mid_ctx
            },
            Ok(_) => from_packet_filter(next, (mid_ctx, ctx.1), r),
        }
}

/// The RNDIS initialisation, and what came after it.
proof fn lemma_from_rndis<C: Rndis<M>, M: RingMem>(
    nic: Netvsp<M>,
    ctx: (HvCtx<C>, HvCtx<C>),
    r: Handled<Netvsp<M>>,
    mid_ctx: HvCtx<C>,
    next: Netvsp<M>,
    done: Result<()>,
)
    requires
        C::rndis_started((nic, next), (ctx.0, mid_ctx), done),
        ctx.0.ran_to(mid_ctx),
        match done {
            Err(e) => {
                &&& r == Err::<Netvsp<M>, HandlerError>(HandlerError::Nic(NicStep::RndisInit, e))
                &&& ctx.1 == mid_ctx
            },
            Ok(_) => from_packet_filter(next, (mid_ctx, ctx.1), r),
        },
    ensures
        from_rndis(nic, ctx, r),
{
}

/// Bring RNDIS up: its initialisation and the packet filter.
fn start_rndis<C: Rndis<M>, M: RingMem>(nic: Netvsp<M>, ctx: &mut HvCtx<C>) -> (r: Handled<
    Netvsp<M>,
>)
    requires
        nic.wf(),
    ensures
        old(ctx).ran_to(*final(ctx)),
        r matches Ok(next) ==> next.wf(),
        from_rndis(nic, (*old(ctx), *final(ctx)), r),
{
    let ghost first = nic;
    let mut nic = nic;
    let done = C::rndis_init(&mut nic, ctx);
    let ghost next = nic;
    let ghost mid_ctx = *ctx;
    let r = match done {
        Ok(()) => {
            let set = C::set_packet_filter(&mut nic, ctx, PACKET_FILTER);
            let ghost last = nic;
            let r = match set {
                Ok(()) => Ok(nic),
                Err(e) => Err(HandlerError::Nic(NicStep::SetPacketFilter, e)),
            };
            proof {
                lemma_from_packet_filter(next, (mid_ctx, *ctx), r, last, set);
            }
            r
        },
        Err(e) => Err(HandlerError::Nic(NicStep::RndisInit, e)),
    };
    proof {
        lemma_from_rndis(first, (*old(ctx), *ctx), r, mid_ctx, next, done);
    }
    r
}

/// The steps from the send buffer on went like this.
pub open spec fn from_send_buffer<C: Rndis<M>, M: RingMem, H: ConnectResultHandler>(
    nic: Netvsp<M>,
    state: (VmbusState<H>, VmbusState<H>),
    ctx: (HvCtx<C>, HvCtx<C>),
    send_gpa: Option<u64>,
    r: Handled<Netvsp<M>>,
) -> bool {
    exists|mid: VmbusState<H>, mid_ctx: HvCtx<C>, next: Netvsp<M>, done: Result<()>| #[trigger]
        netvsp::buffer_established(
            nic,
            false,
            (state.0, mid),
            (ctx.0.log(), mid_ctx.log()),
            SEND_BUFFER_SIZE,
            send_gpa,
            next,
            done,
        ) && ctx.0.ran_to(mid_ctx) && match done {
            Err(e) => {
                &&& r == Err::<Netvsp<M>, HandlerError>(
                    HandlerError::Nic(NicStep::EstablishSendBuffer, e),
                )
                &&& state.1 == mid
                &&& ctx.1 == mid_ctx
            },
            Ok(_) => state.1 == mid && from_rndis(next, (mid_ctx, ctx.1), r),
        }
}

/// The send buffer, and what came after it.
proof fn lemma_from_send_buffer<C: Rndis<M>, M: RingMem, H: ConnectResultHandler>(
    nic: Netvsp<M>,
    state: (VmbusState<H>, VmbusState<H>),
    ctx: (HvCtx<C>, HvCtx<C>),
    send_gpa: Option<u64>,
    r: Handled<Netvsp<M>>,
    mid: VmbusState<H>,
    mid_ctx: HvCtx<C>,
    next: Netvsp<M>,
    done: Result<()>,
)
    requires
        netvsp::buffer_established(
            nic,
            false,
            (state.0, mid),
            (ctx.0.log(), mid_ctx.log()),
            SEND_BUFFER_SIZE,
            send_gpa,
            next,
            done,
        ),
        ctx.0.ran_to(mid_ctx),
        match done {
            Err(e) => {
                &&& r == Err::<Netvsp<M>, HandlerError>(
                    HandlerError::Nic(NicStep::EstablishSendBuffer, e),
                )
                &&& state.1 == mid
                &&& ctx.1 == mid_ctx
            },
            Ok(_) => state.1 == mid && from_rndis(next, (mid_ctx, ctx.1), r),
        },
    ensures
        from_send_buffer(nic, state, ctx, send_gpa, r),
{
}

/// The steps from the receive buffer on went like this.
pub open spec fn from_recv_buffer<C: Rndis<M>, M: RingMem, H: ConnectResultHandler>(
    nic: Netvsp<M>,
    state: (VmbusState<H>, VmbusState<H>),
    ctx: (HvCtx<C>, HvCtx<C>),
    gpas: (Option<u64>, Option<u64>),
    r: Handled<Netvsp<M>>,
) -> bool {
    exists|mid: VmbusState<H>, mid_ctx: HvCtx<C>, next: Netvsp<M>, done: Result<()>| #[trigger]
        netvsp::buffer_established(
            nic,
            true,
            (state.0, mid),
            (ctx.0.log(), mid_ctx.log()),
            RECV_BUFFER_SIZE,
            gpas.0,
            next,
            done,
        ) && ctx.0.ran_to(mid_ctx) && match done {
            Err(e) => {
                &&& r == Err::<Netvsp<M>, HandlerError>(
                    HandlerError::Nic(NicStep::EstablishRecvBuffer, e),
                )
                &&& state.1 == mid
                &&& ctx.1 == mid_ctx
            },
            Ok(_) => from_send_buffer(next, (mid, state.1), (mid_ctx, ctx.1), gpas.1, r),
        }
}

/// The receive buffer, and what came after it.
proof fn lemma_from_recv_buffer<C: Rndis<M>, M: RingMem, H: ConnectResultHandler>(
    nic: Netvsp<M>,
    state: (VmbusState<H>, VmbusState<H>),
    ctx: (HvCtx<C>, HvCtx<C>),
    gpas: (Option<u64>, Option<u64>),
    r: Handled<Netvsp<M>>,
    mid: VmbusState<H>,
    mid_ctx: HvCtx<C>,
    next: Netvsp<M>,
    done: Result<()>,
)
    requires
        netvsp::buffer_established(
            nic,
            true,
            (state.0, mid),
            (ctx.0.log(), mid_ctx.log()),
            RECV_BUFFER_SIZE,
            gpas.0,
            next,
            done,
        ),
        ctx.0.ran_to(mid_ctx),
        match done {
            Err(e) => {
                &&& r == Err::<Netvsp<M>, HandlerError>(
                    HandlerError::Nic(NicStep::EstablishRecvBuffer, e),
                )
                &&& state.1 == mid
                &&& ctx.1 == mid_ctx
            },
            Ok(_) => from_send_buffer(next, (mid, state.1), (mid_ctx, ctx.1), gpas.1, r),
        },
    ensures
        from_recv_buffer(nic, state, ctx, gpas, r),
{
}

/// Establish the send buffer, and go on.
fn establish_send<C: Rndis<M>, M: RingMem, H: ConnectResultHandler>(
    nic: Netvsp<M>,
    ctx: &mut HvCtx<C>,
    state: &mut VmbusState<H>,
    send_gpa: Option<u64>,
) -> (r: Handled<Netvsp<M>>)
    requires
        nic.wf(),
        send_gpa matches Some(gpa) ==> gpa + SEND_BUFFER_SIZE <= u64::MAX,
    ensures
        old(ctx).ran_to(*final(ctx)),
        r matches Ok(next) ==> next.wf(),
        from_send_buffer(
            nic,
            (*old(state), *final(state)),
            (*old(ctx), *final(ctx)),
            send_gpa,
            r,
        ),
{
    let ghost first = nic;
    let mut nic = nic;
    let done = nic.establish_send_buffer(ctx, state, SEND_BUFFER_SIZE, send_gpa);
    let ghost next = nic;
    let ghost mid = *state;
    let ghost mid_ctx = *ctx;
    let r = match done {
        Ok(()) => start_rndis(nic, ctx),
        Err(e) => Err(HandlerError::Nic(NicStep::EstablishSendBuffer, e)),
    };
    proof {
        lemma_from_send_buffer(
            first,
            (*old(state), *state),
            (*old(ctx), *ctx),
            send_gpa,
            r,
            mid,
            mid_ctx,
            next,
            done,
        );
    }
    r
}

/// Establish both buffers, and go on.
fn establish_buffers<C: Rndis<M>, M: RingMem, H: ConnectResultHandler>(
    nic: Netvsp<M>,
    ctx: &mut HvCtx<C>,
    state: &mut VmbusState<H>,
    recv_gpa: Option<u64>,
    send_gpa: Option<u64>,
) -> (r: Handled<Netvsp<M>>)
    requires
        nic.wf(),
        recv_gpa matches Some(gpa) ==> gpa + RECV_BUFFER_SIZE <= u64::MAX,
        send_gpa matches Some(gpa) ==> gpa + SEND_BUFFER_SIZE <= u64::MAX,
    ensures
        old(ctx).ran_to(*final(ctx)),
        r matches Ok(next) ==> next.wf(),
        from_recv_buffer(
            nic,
            (*old(state), *final(state)),
            (*old(ctx), *final(ctx)),
            (recv_gpa, send_gpa),
            r,
        ),
{
    let ghost first = nic;
    let mut nic = nic;
    let done = nic.establish_recv_buffer(ctx, state, RECV_BUFFER_SIZE, recv_gpa);
    let ghost next = nic;
    let ghost mid = *state;
    let ghost mid_ctx = *ctx;
    let r = match done {
        Ok(()) => establish_send(nic, ctx, state, send_gpa),
        Err(e) => Err(HandlerError::Nic(NicStep::EstablishRecvBuffer, e)),
    };
    proof {
        lemma_from_recv_buffer(
            first,
            (*old(state), *state),
            (*old(ctx), *ctx),
            (recv_gpa, send_gpa),
            r,
            mid,
            mid_ctx,
            next,
            done,
        );
    }
    r
}

/// The steps from the NDIS version on went like this.
pub open spec fn from_ndis_version<C: Rndis<M>, M: RingMem, H: ConnectResultHandler>(
    nic: Netvsp<M>,
    state: (VmbusState<H>, VmbusState<H>),
    ctx: (HvCtx<C>, HvCtx<C>),
    gpas: (Option<u64>, Option<u64>),
    r: Handled<Netvsp<M>>,
) -> bool {
    exists|mid_ctx: HvCtx<C>, next: Netvsp<M>, done: Result<()>| #[trigger]
        netvsp::ndis_version_sent(nic, (ctx.0.log(), mid_ctx.log()), next, done)
            && ctx.0.ran_to(mid_ctx) && match done {
            Err(e) => {
                &&& r == Err::<Netvsp<M>, HandlerError>(HandlerError::Nic(NicStep::SendNdisVersion, e))
                &&& state.1 == state.0
                &&& ctx.1 == mid_ctx
            },
            Ok(_) => from_recv_buffer(next, state, (mid_ctx, ctx.1), gpas, r),
        }
}

/// One step, and what came after it.
proof fn lemma_from_ndis_version<C: Rndis<M>, M: RingMem, H: ConnectResultHandler>(
    nic: Netvsp<M>,
    state: (VmbusState<H>, VmbusState<H>),
    ctx: (HvCtx<C>, HvCtx<C>),
    gpas: (Option<u64>, Option<u64>),
    r: Handled<Netvsp<M>>,
    mid_ctx: HvCtx<C>,
    next: Netvsp<M>,
    done: Result<()>,
)
    requires
        netvsp::ndis_version_sent(nic, (ctx.0.log(), mid_ctx.log()), next, done),
        ctx.0.ran_to(mid_ctx),
        match done {
            Err(e) => {
                &&& r == Err::<Netvsp<M>, HandlerError>(HandlerError::Nic(NicStep::SendNdisVersion, e))
                &&& state.1 == state.0
                &&& ctx.1 == mid_ctx
            },
            Ok(_) => from_recv_buffer(next, state, (mid_ctx, ctx.1), gpas, r),
        },
    ensures
        from_ndis_version(nic, state, ctx, gpas, r),
{
}

/// The steps from the NDIS configuration on went like this.
pub open spec fn from_ndis_config<C: Rndis<M>, M: RingMem, H: ConnectResultHandler>(
    nic: Netvsp<M>,
    state: (VmbusState<H>, VmbusState<H>),
    ctx: (HvCtx<C>, HvCtx<C>),
    gpas: (Option<u64>, Option<u64>),
    r: Handled<Netvsp<M>>,
) -> bool {
    exists|mid_ctx: HvCtx<C>, next: Netvsp<M>, done: Result<()>| #[trigger]
        netvsp::config_sent(nic, DEFAULT_MTU, (ctx.0.log(), mid_ctx.log()), next, done)
            && ctx.0.ran_to(mid_ctx) && match done {
            Err(e) => {
                &&& r == Err::<Netvsp<M>, HandlerError>(HandlerError::Nic(NicStep::SendNdisConfig, e))
                &&& state.1 == state.0
                &&& ctx.1 == mid_ctx
            },
            Ok(_) => from_ndis_version(next, state, (mid_ctx, ctx.1), gpas, r),
        }
}

/// One step, and what came after it.
proof fn lemma_from_ndis_config<C: Rndis<M>, M: RingMem, H: ConnectResultHandler>(
    nic: Netvsp<M>,
    state: (VmbusState<H>, VmbusState<H>),
    ctx: (HvCtx<C>, HvCtx<C>),
    gpas: (Option<u64>, Option<u64>),
    r: Handled<Netvsp<M>>,
    mid_ctx: HvCtx<C>,
    next: Netvsp<M>,
    done: Result<()>,
)
    requires
        netvsp::config_sent(nic, DEFAULT_MTU, (ctx.0.log(), mid_ctx.log()), next, done),
        ctx.0.ran_to(mid_ctx),
        match done {
            Err(e) => {
                &&& r == Err::<Netvsp<M>, HandlerError>(HandlerError::Nic(NicStep::SendNdisConfig, e))
                &&& state.1 == state.0
                &&& ctx.1 == mid_ctx
            },
            Ok(_) => from_ndis_version(next, state, (mid_ctx, ctx.1), gpas, r),
        },
    ensures
        from_ndis_config(nic, state, ctx, gpas, r),
{
}

/// The steps from the version negotiation on went like this.
pub open spec fn from_negotiation<C: Rndis<M>, M: RingMem, H: ConnectResultHandler>(
    nic: Netvsp<M>,
    state: (VmbusState<H>, VmbusState<H>),
    ctx: (HvCtx<C>, HvCtx<C>),
    gpas: (Option<u64>, Option<u64>),
    r: Handled<Netvsp<M>>,
) -> bool {
    exists|mid_ctx: HvCtx<C>, next: Netvsp<M>, done: Result<netvsp::Version>| #[trigger]
        netvsp::ladder_walk(nic, NEGOTIATION_LADDER@, (ctx.0.log(), mid_ctx.log()), next, done)
            && ctx.0.ran_to(mid_ctx) && match done {
            Err(e) => {
                &&& r == Err::<Netvsp<M>, HandlerError>(HandlerError::Nic(NicStep::NegotiateVersion, e))
                &&& state.1 == state.0
                &&& ctx.1 == mid_ctx
            },
            Ok(_) => from_ndis_config(next, state, (mid_ctx, ctx.1), gpas, r),
        }
}

/// One step, and what came after it.
proof fn lemma_from_negotiation<C: Rndis<M>, M: RingMem, H: ConnectResultHandler>(
    nic: Netvsp<M>,
    state: (VmbusState<H>, VmbusState<H>),
    ctx: (HvCtx<C>, HvCtx<C>),
    gpas: (Option<u64>, Option<u64>),
    r: Handled<Netvsp<M>>,
    mid_ctx: HvCtx<C>,
    next: Netvsp<M>,
    done: Result<netvsp::Version>,
)
    requires
        netvsp::ladder_walk(nic, NEGOTIATION_LADDER@, (ctx.0.log(), mid_ctx.log()), next, done),
        ctx.0.ran_to(mid_ctx),
        match done {
            Err(e) => {
                &&& r == Err::<Netvsp<M>, HandlerError>(HandlerError::Nic(NicStep::NegotiateVersion, e))
                &&& state.1 == state.0
                &&& ctx.1 == mid_ctx
            },
            Ok(_) => from_ndis_config(next, state, (mid_ctx, ctx.1), gpas, r),
        },
    ensures
        from_negotiation(nic, state, ctx, gpas, r),
{
}

/// Tell the NDIS version, and go on.
fn tell_ndis_version<C: Rndis<M>, M: RingMem, H: ConnectResultHandler>(
    nic: Netvsp<M>,
    ctx: &mut HvCtx<C>,
    state: &mut VmbusState<H>,
    recv_gpa: Option<u64>,
    send_gpa: Option<u64>,
) -> (r: Handled<Netvsp<M>>)
    requires
        nic.wf(),
        recv_gpa matches Some(gpa) ==> gpa + RECV_BUFFER_SIZE <= u64::MAX,
        send_gpa matches Some(gpa) ==> gpa + SEND_BUFFER_SIZE <= u64::MAX,
    ensures
        old(ctx).ran_to(*final(ctx)),
        r matches Ok(next) ==> next.wf(),
        from_ndis_version(
            nic,
            (*old(state), *final(state)),
            (*old(ctx), *final(ctx)),
            (recv_gpa, send_gpa),
            r,
        ),
{
    let ghost first = nic;
    let mut nic = nic;
    let done = nic.send_ndis_version(ctx);
    let ghost next = nic;
    let ghost mid_ctx = *ctx;
    let r = match done {
        Ok(_) => establish_buffers(nic, ctx, state, recv_gpa, send_gpa),
        Err(e) => Err(HandlerError::Nic(NicStep::SendNdisVersion, e)),
    };
    proof {
        lemma_from_ndis_version(
            first,
            (*old(state), *state),
            (*old(ctx), *ctx),
            (recv_gpa, send_gpa),
            r,
            mid_ctx,
            next,
            done,
        );
    }
    r
}

/// Send the NDIS configuration, and go on.
fn configure<C: Rndis<M>, M: RingMem, H: ConnectResultHandler>(
    nic: Netvsp<M>,
    ctx: &mut HvCtx<C>,
    state: &mut VmbusState<H>,
    recv_gpa: Option<u64>,
    send_gpa: Option<u64>,
) -> (r: Handled<Netvsp<M>>)
    requires
        nic.wf(),
        recv_gpa matches Some(gpa) ==> gpa + RECV_BUFFER_SIZE <= u64::MAX,
        send_gpa matches Some(gpa) ==> gpa + SEND_BUFFER_SIZE <= u64::MAX,
    ensures
        old(ctx).ran_to(*final(ctx)),
        r matches Ok(next) ==> next.wf(),
        from_ndis_config(
            nic,
            (*old(state), *final(state)),
            (*old(ctx), *final(ctx)),
            (recv_gpa, send_gpa),
            r,
        ),
{
    let ghost first = nic;
    let mut nic = nic;
    let done = nic.send_ndis_config(ctx, DEFAULT_MTU);
    let ghost next = nic;
    let ghost mid_ctx = *ctx;
    let r = match done {
        Ok(_) => tell_ndis_version(nic, ctx, state, recv_gpa, send_gpa),
        Err(e) => Err(HandlerError::Nic(NicStep::SendNdisConfig, e)),
    };
    proof {
        lemma_from_ndis_config(
            first,
            (*old(state), *state),
            (*old(ctx), *ctx),
            (recv_gpa, send_gpa),
            r,
            mid_ctx,
            next,
            done,
        );
    }
    r
}

/// Negotiate the version, and go on.
fn negotiate<C: Rndis<M>, M: RingMem, H: ConnectResultHandler>(
    nic: Netvsp<M>,
    ctx: &mut HvCtx<C>,
    state: &mut VmbusState<H>,
    recv_gpa: Option<u64>,
    send_gpa: Option<u64>,
) -> (r: Handled<Netvsp<M>>)
    requires
        nic.wf(),
        recv_gpa matches Some(gpa) ==> gpa + RECV_BUFFER_SIZE <= u64::MAX,
        send_gpa matches Some(gpa) ==> gpa + SEND_BUFFER_SIZE <= u64::MAX,
    ensures
        old(ctx).ran_to(*final(ctx)),
        r matches Ok(next) ==> next.wf(),
        from_negotiation(
            nic,
            (*old(state), *final(state)),
            (*old(ctx), *final(ctx)),
            (recv_gpa, send_gpa),
            r,
        ),
{
    let ghost first = nic;
    let mut nic = nic;
    let done = nic.negotiate_version(ctx);
    let ghost next = nic;
    let ghost mid_ctx = *ctx;
    let r = match done {
        Ok(_) => configure(nic, ctx, state, recv_gpa, send_gpa),
        Err(e) => Err(HandlerError::Nic(NicStep::NegotiateVersion, e)),
    };
    proof {
        lemma_from_negotiation(
            first,
            (*old(state), *state),
            (*old(ctx), *ctx),
            (recv_gpa, send_gpa),
            r,
            mid_ctx,
            next,
            done,
        );
    }
    r
}

/// Bringing the NIC up on a connection went like this: open, version
/// negotiation, NDIS configuration and version, receive and send buffer,
/// RNDIS initialisation and packet filter, in this order, up to the first
/// step that fails.
pub open spec fn nic_up<C: Rndis<M>, M: RingMem, H: ConnectResultHandler>(
    state: (VmbusState<H>, VmbusState<H>),
    ctx: (HvCtx<C>, HvCtx<C>),
    offer: OfferChannel,
    memory: NicMemory<M>,
    r: Handled<Netvsp<M>>,
) -> bool {
    exists|mid: VmbusState<H>, mid_ctx: HvCtx<C>, opened: Result<Netvsp<M>>| #[trigger]
        netvsp::nic_opened(
            (state.0, mid),
            (ctx.0.log(), mid_ctx.log()),
            offer,
            memory.rings,
            opened,
        ) && ctx.0.ran_to(mid_ctx) && match opened {
            Err(e) => {
                &&& r == Err::<Netvsp<M>, HandlerError>(HandlerError::Nic(NicStep::Open, e))
                &&& state.1 == mid
                &&& ctx.1 == mid_ctx
            },
            Ok(nic) => from_negotiation(
                nic,
                (mid, state.1),
                (mid_ctx, ctx.1),
                (memory.recv_gpa, memory.send_gpa),
                r,
            ),
        }
}

/// Opening, and what came after it.
proof fn lemma_nic_up<C: Rndis<M>, M: RingMem, H: ConnectResultHandler>(
    state: (VmbusState<H>, VmbusState<H>),
    ctx: (HvCtx<C>, HvCtx<C>),
    offer: OfferChannel,
    memory: NicMemory<M>,
    r: Handled<Netvsp<M>>,
    mid: VmbusState<H>,
    mid_ctx: HvCtx<C>,
    opened: Result<Netvsp<M>>,
)
    requires
        netvsp::nic_opened(
            (state.0, mid),
            (ctx.0.log(), mid_ctx.log()),
            offer,
            memory.rings,
            opened,
        ),
        ctx.0.ran_to(mid_ctx),
        match opened {
            Err(e) => {
                &&& r == Err::<Netvsp<M>, HandlerError>(HandlerError::Nic(NicStep::Open, e))
                &&& state.1 == mid
                &&& ctx.1 == mid_ctx
            },
            Ok(nic) => from_negotiation(
                nic,
                (mid, state.1),
                (mid_ctx, ctx.1),
                (memory.recv_gpa, memory.send_gpa),
                r,
            ),
        },
    ensures
        nic_up(state, ctx, offer, memory, r),
{
}

/// Open the NIC's channel on an already-established VMBus connection and
/// run the full bring-up (open + version negotiation + NDIS config/version
/// + recv/send buffers + RNDIS init + packet filter), in freshly allocated
/// memory.
pub fn open_netvsp_channel<C: Rndis<M>, M: RingMem, H: ConnectResultHandler>(
    ctx: &mut HvCtx<C>,
    state: &mut VmbusState<H>,
    offer: &OfferChannel,
    memory: NicMemory<M>,
) -> (r: Handled<Netvsp<M>>)
    requires
        memory.usable(),
    ensures
        old(ctx).ran_to(*final(ctx)),
        r matches Ok(nic) ==> nic.wf(),
        nic_up((*old(state), *final(state)), (*old(ctx), *final(ctx)), *offer, memory, r),
{
    let ghost m = memory;
    let recv_gpa = memory.recv_gpa;
    let send_gpa = memory.send_gpa;
    let opened = Netvsp::open(ctx, state, offer, memory.rings);
    let ghost o = opened;
    let ghost mid = *state;
    let ghost mid_ctx = *ctx;
    let r = match opened {
        Ok(nic) => negotiate(nic, ctx, state, recv_gpa, send_gpa),
        Err(e) => Err(HandlerError::Nic(NicStep::Open, e)),
    };
    proof {
        lemma_nic_up(
            (*old(state), *state),
            (*old(ctx), *ctx),
            *offer,
            m,
            r,
            mid,
            mid_ctx,
            o,
        );
    }
    r
}

// ---------------------------------------------------------------------------
// Sessions
// ---------------------------------------------------------------------------
/// A live NIC.
///
/// The hypercall context and the offer survive across testcases; the NIC
/// is closed and reopened by [`reset_session`] at every testcase
/// boundary. Keeping the VMBus connection up across resets avoids
/// re-running SynIC init and `request_offers` on every testcase.
pub struct NetvspSession<C, M: RingMem> {
    pub ctx: HvCtx<C>,
    pub offer: OfferChannel,
    pub nic: Netvsp<M>,
    /// Address of the region that backs the NIC's rings.
    pub ring_gpa: Option<u64>,
}

/// A session, if there is one, is well formed.
pub open spec fn cell_wf<C, M: RingMem>(cell: Option<NetvspSession<C, M>>) -> bool {
    cell matches Some(s) ==> s.nic.wf()
}

/// The allocator hands out nothing but what is usable.
pub open spec fn allocates<M: RingMem, A: FnOnce() -> NicMemory<M>>(memory: A) -> bool {
    &&& call_requires(memory, ())
    &&& forall|m: NicMemory<M>| #[trigger] call_ensures(memory, (), m) ==> m.usable()
}

/// Address of a ring region.
pub open spec fn region_gpa<M: RingMem>(rings: Option<RingRegion<M>>) -> Option<u64> {
    match rings {
        Some(g) => Some(g.base_gpa),
        None => None,
    }
}

/// Address of a ring region.
fn gpa_of<M: RingMem>(rings: &Option<RingRegion<M>>) -> (r: Option<u64>)
    ensures
        r == region_gpa(*rings),
{
    match rings {
        Some(g) => Some(g.base_gpa),
        None => None,
    }
}

/// Opening the NIC on a connection just brought up went like this.
pub open spec fn nic_session_opened<
    C: Rndis<M>,
    M: RingMem,
    H: ConnectResultHandler,
    A: FnOnce() -> NicMemory<M>,
>(
    bus: VmbusSession<C, M>,
    memory: A,
    state: (VmbusState<H>, VmbusState<H>),
    r: Handled<NetvspSession<C, M>>,
) -> bool {
    match vmbus::first_netvsp(bus.offers@) {
        None => {
            &&& r == Err::<NetvspSession<C, M>, HandlerError>(HandlerError::NoNetvsp)
            &&& state.1 == state.0
        },
        Some(offer) => exists|m: NicMemory<M>| #[trigger]
            call_ensures(memory, (), m) && match r {
                Ok(s) => {
                    &&& s.offer == offer
                    &&& s.ring_gpa == region_gpa(m.rings)
                    &&& bus.ctx.ran_to(s.ctx)
                    &&& nic_up(state, (bus.ctx, s.ctx), offer, m, Ok(s.nic))
                },
                Err(e) => exists|end: HvCtx<C>| #[trigger]
                    nic_up::<C, M, H>((state.0, state.1), (bus.ctx, end), offer, m, Err(e))
                        && bus.ctx.ran_to(end),
            },
    }
}

/// A NIC that did not come up.
proof fn lemma_nic_not_opened<
    C: Rndis<M>,
    M: RingMem,
    H: ConnectResultHandler,
    A: FnOnce() -> NicMemory<M>,
>(
    bus: VmbusSession<C, M>,
    memory: A,
    state: (VmbusState<H>, VmbusState<H>),
    m: NicMemory<M>,
    end: HvCtx<C>,
    e: HandlerError,
)
    requires
        vmbus::first_netvsp(bus.offers@) is Some,
        call_ensures(memory, (), m),
        bus.ctx.ran_to(end),
        nic_up::<C, M, H>(
            (state.0, state.1),
            (bus.ctx, end),
            vmbus::first_netvsp(bus.offers@)->0,
            m,
            Err(e),
        ),
    ensures
        nic_session_opened(bus, memory, state, Err(e)),
{
}

/// Open the NIC on a connection just brought up.
fn open_nic_session<
    C: Rndis<M>,
    M: RingMem,
    H: ConnectResultHandler,
    A: FnOnce() -> NicMemory<M>,
>(
    bus: VmbusSession<C, M>,
    memory: A,
    state: &mut VmbusState<H>,
) -> (r: Handled<NetvspSession<C, M>>)
    requires
        allocates(memory),
    ensures
        r matches Ok(s) ==> s.nic.wf(),
        nic_session_opened(bus, memory, (*old(state), *final(state)), r),
{
    let ghost b = bus;
    let offer = match find_netvsp(bus.offers.as_slice()) {
        Some(offer) => offer,
        None => return Err(HandlerError::NoNetvsp),
    };
    let mut ctx = bus.ctx;
    let m = memory();
    let ghost mg = m;
    proof {
        assert(call_ensures(memory, (), m));
    }
    let ring_gpa = gpa_of(&m.rings);
    match open_netvsp_channel(&mut ctx, state, &offer, m) {
        Ok(nic) => Ok(NetvspSession { ctx, offer, nic, ring_gpa }),
        Err(e) => {
            proof {
                lemma_nic_not_opened(b, memory, (*old(state), *state), mg, ctx, e);
            }
            Err(e)
        },
    }
}

/// Bringing a NIC's session up from scratch went like this: the VMBus
/// connection first, then the NIC on it.
pub open spec fn nic_session_up<
    C: Rndis<M>,
    M: RingMem,
    H: ConnectResultHandler,
    A: FnOnce() -> NicMemory<M>,
>(
    boot: Boot<C>,
    memory: A,
    state: (VmbusState<H>, VmbusState<H>),
    r: Handled<NetvspSession<C, M>>,
) -> bool {
    exists|mid: VmbusState<H>, bus: Handled<VmbusSession<C, M>>| #[trigger]
        vmbus::brought_up(boot, (state.0, mid), bus) && match bus {
            Err(e) => r == Err::<NetvspSession<C, M>, HandlerError>(e) && state.1 == mid,
            Ok(b) => nic_session_opened(b, memory, (mid, state.1), r),
        }
}

/// The connection, and the NIC on it.
proof fn lemma_nic_session_up<
    C: Rndis<M>,
    M: RingMem,
    H: ConnectResultHandler,
    A: FnOnce() -> NicMemory<M>,
>(
    boot: Boot<C>,
    memory: A,
    state: (VmbusState<H>, VmbusState<H>),
    r: Handled<NetvspSession<C, M>>,
    mid: VmbusState<H>,
    bus: Handled<VmbusSession<C, M>>,
)
    requires
        vmbus::brought_up(boot, (state.0, mid), bus),
        match bus {
            Err(e) => r == Err::<NetvspSession<C, M>, HandlerError>(e) && state.1 == mid,
            Ok(b) => nic_session_opened(b, memory, (mid, state.1), r),
        },
    ensures
        nic_session_up(boot, memory, state, r),
{
}

/// Bring up a complete NIC session from scratch: VMBus connection plus an
/// opened NIC.
pub fn bring_up_session<
    C: Rndis<M>,
    M: RingMem,
    H: ConnectResultHandler,
    A: FnOnce() -> NicMemory<M>,
>(
    boot: Boot<C>,
    memory: A,
    state: &mut VmbusState<H>,
) -> (r: Handled<NetvspSession<C, M>>)
    requires
        allocates(memory),
    ensures
        r matches Ok(s) ==> s.nic.wf(),
        nic_session_up(boot, memory, (*old(state), *final(state)), r),
{
    let ghost p = boot;
    let bus: Handled<VmbusSession<C, M>> = vmbus::bring_up_session(boot, state);
    let ghost b = bus;
    let ghost mid = *state;
    let r = match bus {
        Ok(bus) => open_nic_session(bus, memory, state),
        Err(e) => Err(e),
    };
    proof {
        lemma_nic_session_up(p, memory, (*old(state), *state), r, mid, b);
    }
    r
}

/// Making sure that there is a session went like this: one that is there
/// is kept; otherwise the platform is asked for what a new one needs.
pub open spec fn session_up<
    C: Rndis<M>,
    M: RingMem,
    H: ConnectResultHandler,
    F: FnOnce() -> core::result::Result<Boot<C>, TmkError>,
    A: FnOnce() -> NicMemory<M>,
>(
    boot: F,
    memory: A,
    cell: (Option<NetvspSession<C, M>>, Option<NetvspSession<C, M>>),
    state: (VmbusState<H>, VmbusState<H>),
    r: Handled<()>,
) -> bool {
    match cell.0 {
        Some(_) => {
            &&& r == Ok::<(), HandlerError>(())
            &&& cell.1 == cell.0
            &&& state.1 == state.0
        },
        None => exists|b: core::result::Result<Boot<C>, TmkError>| #[trigger]
            call_ensures(boot, (), b) && match b {
                Err(e) => {
                    &&& r == Err::<(), HandlerError>(HandlerError::Context(e))
                    &&& cell.1 is None
                    &&& state.1 == state.0
                },
                Ok(p) => match r {
                    Ok(_) => cell.1 is Some && nic_session_up(p, memory, state, Ok(cell.1->0)),
                    Err(e) => cell.1 is None && nic_session_up::<C, M, H, A>(
                        p,
                        memory,
                        state,
                        Err(e),
                    ),
                },
            },
    }
}

/// Make sure that there is a session. It is brought up on first use and
/// then kept warm. Each testcase boundary calls [`reset_session`], so a
/// NIC wedged by one testcase cannot leak into the next.
pub fn with_session<
    C: Rndis<M>,
    M: RingMem,
    H: ConnectResultHandler,
    F: FnOnce() -> core::result::Result<Boot<C>, TmkError>,
    A: FnOnce() -> NicMemory<M>,
>(
    cell: &mut Option<NetvspSession<C, M>>,
    boot: F,
    memory: A,
    state: &mut VmbusState<H>,
) -> (r: Handled<()>)
    requires
        cell_wf(*old(cell)),
        call_requires(boot, ()),
        allocates(memory),
    ensures
        cell_wf(*final(cell)),
        r is Ok ==> *final(cell) is Some,
        session_up(boot, memory, (*old(cell), *final(cell)), (*old(state), *final(state)), r),
{
    if cell.is_none() {
        let booted = boot();
        proof {
            assert(call_ensures(boot, (), booted));
        }
        let p = match booted {
            Ok(p) => p,
            Err(e) => return Err(HandlerError::Context(e)),
        };
        match bring_up_session(p, memory, state) {
            Ok(session) => {
                *cell = Some(session);
            },
            Err(e) => return Err(e),
        }
    }
    Ok(())
}

/// `open_channel()`: ensure the NIC's session is established.
///
/// Idempotent: brings the NIC up on the first call and is a no-op once a
/// session exists.
pub fn open_channel<
    C: Rndis<M>,
    M: RingMem,
    H: ConnectResultHandler,
    F: FnOnce() -> core::result::Result<Boot<C>, TmkError>,
    A: FnOnce() -> NicMemory<M>,
>(
    cell: &mut Option<NetvspSession<C, M>>,
    boot: F,
    memory: A,
    state: &mut VmbusState<H>,
) -> (r: Handled<()>)
    requires
        cell_wf(*old(cell)),
        call_requires(boot, ()),
        allocates(memory),
    ensures
        cell_wf(*final(cell)),
        session_up(boot, memory, (*old(cell), *final(cell)), (*old(state), *final(state)), r),
{
    with_session(cell, boot, memory, state)
}

// ---------------------------------------------------------------------------
// Messages
// ---------------------------------------------------------------------------
/// Posting a program's NVSP message over the session went like this.
pub open spec fn nvsp_posted<C: Rndis<M>, M: RingMem>(
    session: (NetvspSession<C, M>, NetvspSession<C, M>),
    frame: Seq<u8>,
    completion: bool,
    r: Handled<()>,
) -> bool {
    &&& session.1.offer == session.0.offer
    &&& session.1.ring_gpa == session.0.ring_gpa
    &&& session.0.ctx.ran_to(session.1.ctx)
    &&& exists|sent: Result<()>| #[trigger]
        session.0.nic.posted_raw(
            frame,
            completion,
            (session.0.ctx.log(), session.1.ctx.log()),
            session.1.nic,
            sent,
        ) && r == vmbus::bus(sent)
}

/// `send_nvsp(pkt, pkt_len, flags)`: post a raw NVSP message inband.
///
/// * `pkt`: address of the NVSP message bytes.
/// * `pkt_len`: byte length of the message.
/// * `flags`: bit 0 requests a completion.
pub fn send_nvsp<
    C: Rndis<M>,
    M: RingMem,
    H: ConnectResultHandler,
    G: SafeMemoryMap,
    F: FnOnce() -> core::result::Result<Boot<C>, TmkError>,
    A: FnOnce() -> NicMemory<M>,
>(
    cell: &mut Option<NetvspSession<C, M>>,
    boot: F,
    memory: A,
    state: &mut VmbusState<H>,
    mem: &mut G,
    pkt: usize,
    pkt_len: usize,
    flags: u64,
) -> (r: Handled<()>)
    requires
        cell_wf(*old(cell)),
        call_requires(boot, ()),
        allocates(memory),
    ensures
        cell_wf(*final(cell)),
        exists|read: Handled<Seq<u8>>| #[trigger]
            functions::input_read(
                (*old(mem), *final(mem)),
                pkt,
                pkt_len,
                MAX_FUZZ_MSG_LEN,
                read,
            ) && match read {
                Err(e) => {
                    &&& r == Err::<(), HandlerError>(e)
                    &&& *final(cell) == *old(cell)
                    &&& *final(state) == *old(state)
                },
                Ok(frame) => exists|mid: Option<NetvspSession<C, M>>, up: Handled<()>| #[trigger]
                    session_up(
                        boot,
                        memory,
                        (*old(cell), mid),
                        (*old(state), *final(state)),
                        up,
                    ) && match up {
                        Err(e) => r == Err::<(), HandlerError>(e) && *final(cell) == mid,
                        Ok(_) => {
                            &&& mid is Some
                            &&& *final(cell) is Some
                            &&& nvsp_posted(
                                (mid->0, final(cell)->0),
                                frame,
                                flags % 2 == 1,
                                r,
                            )
                        },
                    },
            },
{
    let completion = flags % 2 == FLAG_REQUEST_COMPLETION;
    let read = read_input(mem, pkt, pkt_len, MAX_FUZZ_MSG_LEN);
    proof {
        assert(functions::input_read(
            (*old(mem), *mem),
            pkt,
            pkt_len,
            MAX_FUZZ_MSG_LEN,
            functions::bytes_got(read),
        ));
    }
    let frame = match read {
        Ok(frame) => frame,
        Err(e) => return Err(e),
    };
    let up = with_session(cell, boot, memory, state);
    let ghost mid = *cell;
    proof {
        assert(session_up(boot, memory, (*old(cell), mid), (*old(state), *state), up));
    }
    match up {
        Ok(()) => {},
        Err(e) => return Err(e),
    }
    match cell {
        Some(session) => {
            let sent = session.nic.send_nvsp_raw(&mut session.ctx, frame.as_slice(), completion);
            proof {
                assert(mid->0.nic.posted_raw(
                    frame@,
                    completion,
                    (mid->0.ctx.log(), session.ctx.log()),
                    session.nic,
                    sent,
                ));
            }
            match sent {
                Ok(()) => Ok(()),
                Err(e) => Err(HandlerError::Bus(e)),
            }
        },
        None => Ok(()),
    }
}

/// The channel an RNDIS message goes over: the first word is its type.
/// Data packets ride [`RMC_DATA`], everything else [`RMC_CONTROL`], and so
/// does what is too short to have a type.
pub open spec fn rndis_channel(msg: Seq<u8>) -> u32 {
    if msg.len() >= 4 && msg.take(4) == MESSAGE_TYPE_PACKET_MSG.wire() {
        RMC_DATA
    } else {
        RMC_CONTROL
    }
}

/// The channel an RNDIS message goes over, by its message type.
pub fn rndis_channel_type(msg: &[u8]) -> (r: u32)
    ensures
        r == rndis_channel(msg@),
{
    if msg.len() < 4 {
        return RMC_CONTROL;
    }
    let ty = u32::read_at(msg, 0);
    proof {
        assert(msg@.subrange(0, 4) =~= msg@.take(4));
        if msg@.take(4) == MESSAGE_TYPE_PACKET_MSG.wire() {
            ty.lemma_injective(&MESSAGE_TYPE_PACKET_MSG);
        }
    }
    if ty == MESSAGE_TYPE_PACKET_MSG {
        RMC_DATA
    } else {
        RMC_CONTROL
    }
}

/// Sending a program's RNDIS message over the session went like this.
pub open spec fn rndis_posted<C: Rndis<M>, M: RingMem>(
    session: (NetvspSession<C, M>, NetvspSession<C, M>),
    message: Seq<u8>,
    completion: bool,
    r: Handled<()>,
) -> bool {
    &&& session.1.offer == session.0.offer
    &&& session.1.ring_gpa == session.0.ring_gpa
    &&& session.0.ctx.ran_to(session.1.ctx)
    &&& exists|sent: Result<()>| #[trigger]
        C::rndis_sent(
            (session.0.nic, session.1.nic),
            (session.0.ctx, session.1.ctx),
            rndis_channel(message),
            message,
            completion,
            sent,
        ) && r == vmbus::bus(sent)
}

/// `send_rndis(rndis, rndis_len, flags)`: wrap a raw RNDIS message in an
/// NVSP `V1_SEND_RNDIS_PKT` and post it GPA-direct.
///
/// The channel type ([`RMC_DATA`] vs [`RMC_CONTROL`]) is derived from
/// the RNDIS message type in the first 4 bytes.
///
/// * `rndis`: address of the RNDIS message bytes.
/// * `rndis_len`: byte length of the message.
/// * `flags`: bit 0 requests a completion.
pub fn send_rndis<
    C: Rndis<M>,
    M: RingMem,
    H: ConnectResultHandler,
    G: SafeMemoryMap,
    F: FnOnce() -> core::result::Result<Boot<C>, TmkError>,
    A: FnOnce() -> NicMemory<M>,
>(
    cell: &mut Option<NetvspSession<C, M>>,
    boot: F,
    memory: A,
    state: &mut VmbusState<H>,
    mem: &mut G,
    rndis: usize,
    rndis_len: usize,
    flags: u64,
) -> (r: Handled<()>)
    requires
        cell_wf(*old(cell)),
        call_requires(boot, ()),
        allocates(memory),
    ensures
        cell_wf(*final(cell)),
        if rndis_len == 0 {
            &&& r == Err::<(), HandlerError>(HandlerError::Empty)
            &&& *final(cell) == *old(cell)
            &&& *final(state) == *old(state)
            &&& *final(mem) == *old(mem)
        } else {
            exists|read: Handled<Seq<u8>>| #[trigger]
                functions::input_read(
                    (*old(mem), *final(mem)),
                    rndis,
                    rndis_len,
                    MAX_FUZZ_MSG_LEN,
                    read,
                ) && match read {
                    Err(e) => {
                        &&& r == Err::<(), HandlerError>(e)
                        &&& *final(cell) == *old(cell)
                        &&& *final(state) == *old(state)
                    },
                    Ok(msg) => exists|mid: Option<NetvspSession<C, M>>, up: Handled<()>| #[trigger]
                        session_up(
                            boot,
                            memory,
                            (*old(cell), mid),
                            (*old(state), *final(state)),
                            up,
                        ) && match up {
                            Err(e) => r == Err::<(), HandlerError>(e) && *final(cell) == mid,
                            Ok(_) => {
                                &&& mid is Some
                                &&& *final(cell) is Some
                                &&& rndis_posted(
                                    (mid->0, final(cell)->0),
                                    msg,
                                    flags % 2 == 1,
                                    r,
                                )
                            },
                        },
                }
        },
{
    let completion = flags % 2 == FLAG_REQUEST_COMPLETION;
    if rndis_len == 0 {
        return Err(HandlerError::Empty);
    }
    let read = read_input(mem, rndis, rndis_len, MAX_FUZZ_MSG_LEN);
    proof {
        assert(functions::input_read(
            (*old(mem), *mem),
            rndis,
            rndis_len,
            MAX_FUZZ_MSG_LEN,
            functions::bytes_got(read),
        ));
    }
    let message = match read {
        Ok(message) => message,
        Err(e) => return Err(e),
    };
    let channel_type = rndis_channel_type(message.as_slice());
    let up = with_session(cell, boot, memory, state);
    let ghost mid = *cell;
    proof {
        assert(session_up(boot, memory, (*old(cell), mid), (*old(state), *state), up));
    }
    match up {
        Ok(()) => {},
        Err(e) => return Err(e),
    }
    match cell {
        Some(session) => {
            let sent = C::send_rndis_raw(
                &mut session.nic,
                &mut session.ctx,
                channel_type,
                message.as_slice(),
                completion,
            );
            proof {
                assert(C::rndis_sent(
                    (mid->0.nic, session.nic),
                    (mid->0.ctx, session.ctx),
                    rndis_channel(message@),
                    message@,
                    completion,
                    sent,
                ));
            }
            match sent {
                Ok(()) => Ok(()),
                Err(e) => Err(HandlerError::Bus(e)),
            }
        },
        None => Ok(()),
    }
}

/// Renewing a buffer of the session's NIC went like this.
pub open spec fn buffer_renewed<C: Rndis<M>, M: RingMem>(
    session: (NetvspSession<C, M>, NetvspSession<C, M>),
    is_send_buffer: bool,
    r: Handled<()>,
) -> bool {
    &&& session.1.offer == session.0.offer
    &&& session.1.ring_gpa == session.0.ring_gpa
    &&& session.0.ctx.ran_to(session.1.ctx)
    &&& exists|renewed: Result<()>| #[trigger]
        C::renewed(
            is_send_buffer,
            (session.0.nic, session.1.nic),
            (session.0.ctx, session.1.ctx),
            renewed,
        ) && r == vmbus::bus(renewed)
}

/// `renew_buffer(is_send_buffer)`: revoke and re-establish a buffer.
///
/// * `is_send_buffer`: 0 renews the receive buffer, non-zero renews the
///   send buffer. Both reuse the existing GPADL registration (no new
///   allocation).
pub fn renew_buffer<
    C: Rndis<M>,
    M: RingMem,
    H: ConnectResultHandler,
    F: FnOnce() -> core::result::Result<Boot<C>, TmkError>,
    A: FnOnce() -> NicMemory<M>,
>(
    cell: &mut Option<NetvspSession<C, M>>,
    boot: F,
    memory: A,
    state: &mut VmbusState<H>,
    is_send_buffer: u64,
) -> (r: Handled<()>)
    requires
        cell_wf(*old(cell)),
        call_requires(boot, ()),
        allocates(memory),
    ensures
        cell_wf(*final(cell)),
        exists|mid: Option<NetvspSession<C, M>>, up: Handled<()>| #[trigger]
            session_up(
                boot,
                memory,
                (*old(cell), mid),
                (*old(state), *final(state)),
                up,
            ) && match up {
                Err(e) => r == Err::<(), HandlerError>(e) && *final(cell) == mid,
                Ok(_) => {
                    &&& mid is Some
                    &&& *final(cell) is Some
                    &&& buffer_renewed((mid->0, final(cell)->0), is_send_buffer != 0, r)
                },
            },
{
    let up = with_session(cell, boot, memory, state);
    let ghost mid = *cell;
    proof {
        assert(session_up(boot, memory, (*old(cell), mid), (*old(state), *state), up));
    }
    match up {
        Ok(()) => {},
        Err(e) => return Err(e),
    }
    match cell {
        Some(session) => {
            let renewed = if is_send_buffer != 0 {
                C::renew_send_buffer(&mut session.nic, &mut session.ctx)
            } else {
                C::renew_recv_buffer(&mut session.nic, &mut session.ctx)
            };
            proof {
                assert(C::renewed(
                    is_send_buffer != 0,
                    (mid->0.nic, session.nic),
                    (mid->0.ctx, session.ctx),
                    renewed,
                ));
            }
            match renewed {
                Ok(()) => Ok(()),
                Err(e) => Err(HandlerError::Bus(e)),
            }
        },
        None => Ok(()),
    }
}

// ---------------------------------------------------------------------------
// Testcase boundaries
// ---------------------------------------------------------------------------
/// The memory behind a NIC that was closed, for the platform to reclaim.
pub struct NicBacking {
    pub ring_gpa: Option<u64>,
    pub recv_buf: Option<OwnedBuf>,
    pub send_buf: Option<OwnedBuf>,
}

/// What stands behind the session's NIC.
pub open spec fn backing_of<C, M: RingMem>(session: NetvspSession<C, M>) -> NicBacking {
    NicBacking {
        ring_gpa: session.ring_gpa,
        recv_buf: session.nic.recv_buf,
        send_buf: session.nic.send_buf,
    }
}

/// The platform takes back any memory and hands out nothing but what is
/// usable.
pub open spec fn recycles<M: RingMem, A: FnOnce(NicBacking) -> NicMemory<M>>(recycle: A) -> bool {
    &&& forall|b: NicBacking| #[trigger] call_requires(recycle, (b,))
    &&& forall|b: NicBacking, m: NicMemory<M>| #[trigger]
        call_ensures(recycle, (b,), m) ==> m.usable()
}

/// Reopening the NIC in recycled memory went like this: where it does not
/// come up, the connection is unloaded, whatever comes of that.
pub open spec fn reopened<C: Rndis<M>, M: RingMem, H: ConnectResultHandler>(
    state: (VmbusState<H>, VmbusState<H>),
    ctx: HvCtx<C>,
    offer: OfferChannel,
    memory: NicMemory<M>,
    r: Option<NetvspSession<C, M>>,
) -> bool {
    match r {
        Some(s) => {
            &&& s.offer == offer
            &&& s.ring_gpa == region_gpa(memory.rings)
            &&& ctx.ran_to(s.ctx)
            &&& nic_up(state, (ctx, s.ctx), offer, memory, Ok(s.nic))
        },
        None => exists|
            mid: VmbusState<H>,
            mid_ctx: HvCtx<C>,
            end: HvCtx<C>,
            e: HandlerError,
            gone: Result<()>,
        |
            #![trigger nic_up::<C, M, H>((state.0, mid), (ctx, mid_ctx), offer, memory, Err(e)), connection::unloaded((mid, state.1), (mid_ctx.log(), end.log()), gone)]
            nic_up::<C, M, H>((state.0, mid), (ctx, mid_ctx), offer, memory, Err(e))
                && connection::unloaded((mid, state.1), (mid_ctx.log(), end.log()), gone)
                && ctx.ran_to(mid_ctx) && mid_ctx.ran_to(end),
    }
}

/// A NIC that did not come up again.
proof fn lemma_not_reopened<C: Rndis<M>, M: RingMem, H: ConnectResultHandler>(
    state: (VmbusState<H>, VmbusState<H>),
    ctx: HvCtx<C>,
    offer: OfferChannel,
    memory: NicMemory<M>,
    mid: VmbusState<H>,
    mid_ctx: HvCtx<C>,
    end: HvCtx<C>,
    e: HandlerError,
    gone: Result<()>,
)
    requires
        nic_up::<C, M, H>((state.0, mid), (ctx, mid_ctx), offer, memory, Err(e)),
        connection::unloaded((mid, state.1), (mid_ctx.log(), end.log()), gone),
        ctx.ran_to(mid_ctx),
        mid_ctx.ran_to(end),
    ensures
        reopened::<C, M, H>(state, ctx, offer, memory, None),
{
}

/// Resetting a NIC's session went like this: the channel is closed,
/// whatever comes of it, its memory reclaimed, and the NIC opened anew.
pub open spec fn session_reset<
    C: Rndis<M>,
    M: RingMem,
    H: ConnectResultHandler,
    A: FnOnce(NicBacking) -> NicMemory<M>,
>(
    session: NetvspSession<C, M>,
    recycle: A,
    state: (VmbusState<H>, VmbusState<H>),
    r: Option<NetvspSession<C, M>>,
) -> bool {
    exists|mid_ctx: HvCtx<C>, closed: Result<()>, memory: NicMemory<M>|
        {
            &&& #[trigger] channel::closed_over(
                state.0.connection,
                (session.ctx.log(), mid_ctx.log()),
                session.nic.link.channel,
                closed,
            )
            &&& session.ctx.ran_to(mid_ctx)
            &&& #[trigger] call_ensures(recycle, (backing_of(session),), memory)
            &&& reopened(state, mid_ctx, session.offer, memory, r)
        }
}

/// The steps of a reset.
proof fn lemma_session_reset<
    C: Rndis<M>,
    M: RingMem,
    H: ConnectResultHandler,
    A: FnOnce(NicBacking) -> NicMemory<M>,
>(
    session: NetvspSession<C, M>,
    recycle: A,
    state: (VmbusState<H>, VmbusState<H>),
    r: Option<NetvspSession<C, M>>,
    mid_ctx: HvCtx<C>,
    closed: Result<()>,
    memory: NicMemory<M>,
)
    requires
        channel::closed_over(
            state.0.connection,
            (session.ctx.log(), mid_ctx.log()),
            session.nic.link.channel,
            closed,
        ),
        session.ctx.ran_to(mid_ctx),
        call_ensures(recycle, (backing_of(session),), memory),
        reopened(state, mid_ctx, session.offer, memory, r),
    ensures
        session_reset(session, recycle, state, r),
{
}

/// Resetting the NIC's session, if there is one, went like this.
pub open spec fn cell_reset<
    C: Rndis<M>,
    M: RingMem,
    H: ConnectResultHandler,
    A: FnOnce(NicBacking) -> NicMemory<M>,
>(
    cell: (Option<NetvspSession<C, M>>, Option<NetvspSession<C, M>>),
    recycle: A,
    state: (VmbusState<H>, VmbusState<H>),
) -> bool {
    match cell.0 {
        None => cell.1 is None && state.1 == state.0,
        Some(session) => session_reset(session, recycle, state, cell.1),
    }
}

/// Reset the NIC at a testcase boundary.
///
/// Closes the current channel, has the platform **reclaim** its memory
/// (ring region + recv/send GPADL buffers), and reopens a fresh channel
/// on the same VMBus connection. This gives each testcase an isolated,
/// clean-slate data path: no wedged send ring or revoked buffer can leak
/// from one testcase into the next.
///
/// The channel is closed first: the host must stop touching the memory
/// before the platform reuses it. Closing uses messages, not the data
/// ring, so it succeeds even when the ring is wedged full.
///
/// If reopening fails, the VMBus connection is torn down and the session
/// cleared, so the next call rebuilds from scratch rather than operating
/// on a half-open channel.
pub fn reset_session<
    C: Rndis<M>,
    M: RingMem,
    H: ConnectResultHandler,
    A: FnOnce(NicBacking) -> NicMemory<M>,
>(
    cell: &mut Option<NetvspSession<C, M>>,
    recycle: A,
    state: &mut VmbusState<H>,
)
    requires
        cell_wf(*old(cell)),
        recycles(recycle),
    ensures
        cell_wf(*final(cell)),
        cell_reset((*old(cell), *final(cell)), recycle, (*old(state), *final(state))),
{
    let session = match cell.take() {
        Some(session) => session,
        None => return,
    };
    let ghost first = session;
    let mut ctx = session.ctx;
    let offer = session.offer;
    let backing = NicBacking {
        ring_gpa: session.ring_gpa,
        recv_buf: session.nic.recv_buf,
        send_buf: session.nic.send_buf,
    };
    let channel = session.nic.link.channel;
    let closed = close_channel(&mut ctx, state, channel);
    let ghost mid_ctx = ctx;
    proof {
        assert(call_requires(recycle, (backing,)));
    }
    let memory = recycle(backing);
    let ghost m = memory;
    proof {
        assert(call_ensures(recycle, (backing,), memory));
    }
    let ring_gpa = gpa_of(&memory.rings);
    match open_netvsp_channel(&mut ctx, state, &offer, memory) {
        Ok(nic) => {
            *cell = Some(NetvspSession { ctx, offer, nic, ring_gpa });
        },
        Err(e) => {
            let ghost failed = *state;
            let ghost failed_ctx = ctx;
            let gone = crate::unload(&mut ctx, state);
            proof {
                lemma_not_reopened::<C, M, H>(
                    (*old(state), *state),
                    mid_ctx,
                    offer,
                    m,
                    failed,
                    failed_ctx,
                    ctx,
                    e,
                    gone,
                );
            }
        },
    }
    proof {
        lemma_session_reset(first, recycle, (*old(state), *state), *cell, mid_ctx, closed, m);
    }
}

} // verus!
