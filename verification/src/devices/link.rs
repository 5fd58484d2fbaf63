//! An open channel with both halves of its ring.
use crate::channel::Channel;
use crate::channel::ChannelState;
use crate::error::Error;
use crate::error::Result;
use crate::hypercalls::HvCtx;
use crate::hypercalls::HvEvent;
use crate::hypercalls::HypercallTrait;
use crate::packet::InPacket;
use crate::packet::OutPacket;
use crate::protocol::PacketFlags;
use crate::protocol::PacketType;
use crate::ring::RecvRing;
use crate::ring::RingMem;
use crate::ring::SendRing;
use vstd::prelude::*;

verus! {

broadcast use crate::hypercalls::group_ran;

/// An open channel with the ring the guest writes into and the ring the
/// host writes into.
pub struct Link<M: RingMem> {
    pub channel: Channel,
    pub send: SendRing<M>,
    pub recv: RecvRing<M>,
}

/// The inband packet that carries `payload`.
pub open spec fn inband(payload: Seq<u8>, flags: PacketFlags, transaction_id: u64) -> OutPacket {
    OutPacket {
        packet_type: PacketType(PacketType::VM_PKT_DATA_INBAND),
        ext_header: Seq::empty(),
        payload,
        flags,
        transaction_id,
        verbatim: None,
    }
}

/// Of the outcomes `outs`, one after the other, the last is the first
/// that `verdict` decides on, with `r`; or there are `limit` of them, it
/// decides on none, and `r` is `None`.
pub open spec fn stops<T>(
    outs: Seq<Result<InPacket>>,
    verdict: spec_fn(Result<InPacket>) -> Option<T>,
    limit: nat,
    r: Option<T>,
) -> bool {
    match r {
        Some(x) => {
            &&& 0 < outs.len() <= limit
            &&& verdict(outs.last()) == Some(x)
            &&& forall|i: int| 0 <= i < outs.len() - 1 ==> verdict(#[trigger] outs[i]) is None
        },
        None => {
            &&& outs.len() == limit
            &&& forall|i: int| 0 <= i < outs.len() ==> verdict(#[trigger] outs[i]) is None
        },
    }
}

impl<M: RingMem> Link<M> {
    /// Both halves of the ring have the shape of a ring.
    pub open spec fn wf(&self) -> bool {
        &&& self.send.wf()
        &&& self.recv.wf()
    }

    /// Posting `p` went like this: it is written, and the host signalled
    /// whether or not it asked for that.
    pub open spec fn posted(
        self,
        p: OutPacket,
        log: (Seq<HvEvent>, Seq<HvEvent>),
        next: Self,
        r: Result<()>,
    ) -> bool {
        &&& next.channel == self.channel
        &&& next.recv == self.recv
        &&& if self.channel.state != ChannelState::Open {
            &&& r == Err::<(), Error>(Error::Rescinded)
            &&& next.send == self.send
            &&& log.1 == log.0
        } else {
            exists|w: Result<bool>| #[trigger]
                self.send.wrote(p, next.send, w) && match w {
                    Err(e) => r == Err::<(), Error>(e) && log.1 == log.0,
                    Ok(_) => self.channel.signalled(log, r),
                }
        }
    }

    /// Write an inband packet and signal the host.
    pub fn post<C: HypercallTrait>(
        &mut self,
        ctx: &mut HvCtx<C>,
        payload: &[u8],
        flags: PacketFlags,
        transaction_id: u64,
    ) -> (r: Result<()>)
        requires
            old(self).wf(),
        ensures
            old(ctx).ran_to(*final(ctx)),
            final(self).wf(),
            old(self).posted(
                inband(payload@, flags, transaction_id),
                (old(ctx).log(), final(ctx).log()),
                *final(self),
                r,
            ),
    {
        if self.channel.state != ChannelState::Open {
            return Err(Error::Rescinded);
        }
        let written = self.send.write_inband(payload, flags, transaction_id);
        proof {
            assert(old(self).send.wrote(
                inband(payload@, flags, transaction_id),
                self.send,
                written,
            ));
        }
        match written {
            Ok(_) => self.channel.signal(ctx),
            Err(e) => Err(e),
        }
    }
}

} // verus!
