//! RNDIS, the protocol that the NIC speaks above NVSP.
use crate::devices::netvsp::Netvsp;
use crate::error::Result;
use crate::hypercalls::HvCtx;
use crate::hypercalls::HypercallTrait;
use crate::ring::RingMem;
use vstd::prelude::*;

verus! {

/// RNDIS message type of a data packet.
pub const MESSAGE_TYPE_PACKET_MSG: u32 = 1;

/// Packet filter bit: packets directed at the NIC.
pub const NDIS_PACKET_TYPE_DIRECTED: u32 = 0x1;

/// Packet filter bit: all multicast packets.
pub const NDIS_PACKET_TYPE_ALL_MULTICAST: u32 = 0x4;

/// Packet filter bit: broadcast packets.
pub const NDIS_PACKET_TYPE_BROADCAST: u32 = 0x8;

/// The RNDIS side of the NIC, as the platform supplies it: what goes on
/// above the NVSP messages of [`Netvsp`]. The relations say what an
/// implementation does to the NIC and through the hypercall context; by
/// default nothing is known of them.
pub trait Rndis<M: RingMem>: HypercallTrait {
    /// Initialising RNDIS comes to `r`.
    open spec fn rndis_started(
        nic: (Netvsp<M>, Netvsp<M>),
        ctx: (HvCtx<Self>, HvCtx<Self>),
        r: Result<()>,
    ) -> bool {
        true
    }

    /// Setting the packet filter comes to `r`.
    open spec fn packet_filter_set(
        nic: (Netvsp<M>, Netvsp<M>),
        ctx: (HvCtx<Self>, HvCtx<Self>),
        filter: u32,
        r: Result<()>,
    ) -> bool {
        true
    }

    /// Sending `message` over a channel of the given type comes to `r`.
    open spec fn rndis_sent(
        nic: (Netvsp<M>, Netvsp<M>),
        ctx: (HvCtx<Self>, HvCtx<Self>),
        channel_type: u32,
        message: Seq<u8>,
        completion: bool,
        r: Result<()>,
    ) -> bool {
        true
    }

    /// Renewing the send buffer, or else the receive buffer, comes to `r`.
    open spec fn renewed(
        is_send_buffer: bool,
        nic: (Netvsp<M>, Netvsp<M>),
        ctx: (HvCtx<Self>, HvCtx<Self>),
        r: Result<()>,
    ) -> bool {
        true
    }

    /// Initialise RNDIS.
    fn rndis_init(nic: &mut Netvsp<M>, ctx: &mut HvCtx<Self>) -> (r: Result<()>)
        requires
            old(nic).wf(),
        ensures
            final(nic).wf(),
            old(ctx).ran_to(*final(ctx)),
            Self::rndis_started((*old(nic), *final(nic)), (*old(ctx), *final(ctx)), r),
    ;

    /// Choose the packets that the NIC receives.
    fn set_packet_filter(nic: &mut Netvsp<M>, ctx: &mut HvCtx<Self>, filter: u32) -> (r: Result<()>)
        requires
            old(nic).wf(),
        ensures
            final(nic).wf(),
            old(ctx).ran_to(*final(ctx)),
            Self::packet_filter_set(
                (*old(nic), *final(nic)),
                (*old(ctx), *final(ctx)),
                filter,
                r,
            ),
    ;

    /// Wrap a raw RNDIS message in an NVSP `V1_SEND_RNDIS_PKT` and post it.
    fn send_rndis_raw(
        nic: &mut Netvsp<M>,
        ctx: &mut HvCtx<Self>,
        channel_type: u32,
        message: &[u8],
        completion: bool,
    ) -> (r: Result<()>)
        requires
            old(nic).wf(),
        ensures
            final(nic).wf(),
            old(ctx).ran_to(*final(ctx)),
            Self::rndis_sent(
                (*old(nic), *final(nic)),
                (*old(ctx), *final(ctx)),
                channel_type,
                message@,
                completion,
                r,
            ),
    ;

    /// Revoke and re-establish the send buffer.
    fn renew_send_buffer(nic: &mut Netvsp<M>, ctx: &mut HvCtx<Self>) -> (r: Result<()>)
        requires
            old(nic).wf(),
        ensures
            final(nic).wf(),
            old(ctx).ran_to(*final(ctx)),
            Self::renewed(true, (*old(nic), *final(nic)), (*old(ctx), *final(ctx)), r),
    ;

    /// Revoke and re-establish the receive buffer.
    fn renew_recv_buffer(nic: &mut Netvsp<M>, ctx: &mut HvCtx<Self>) -> (r: Result<()>)
        requires
            old(nic).wf(),
        ensures
            final(nic).wf(),
            old(ctx).ran_to(*final(ctx)),
            Self::renewed(false, (*old(nic), *final(nic)), (*old(ctx), *final(ctx)), r),
    ;
}

} // verus!
