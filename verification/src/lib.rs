//! Guest-side VMBus client.
//!
//! This crate implements the guest half of the VMBus protocol.
//!
//! # Scope
//!
//! * SynIC bring-up on the current VP (SIMP/SIEFP/SCONTROL/SINT2).
//! * `InitiateContact`/`VersionResponse` negotiation with newest-to-oldest
//!   fallback.
//! * `RequestOffers`/`OfferChannel`/`AllOffersDelivered` enumeration.
//! * `GpadlHeader`/`GpadlBody`/`GpadlTeardown` create/teardown.
//! * `OpenChannel`/`OpenChannelResult`/`CloseChannel`/`RelIdReleased`.
//! * Ring-buffer send/recv with correct empty to non-empty signalling and
//!   the `pending_send_sz` back-pressure protocol.
//! * Message-page draining with EOM under SINT2.
//! * `Unload`/`UnloadComplete` on shutdown.
//!
//! # Getting started
//!
//! The typical bring-up path is:
//!
//! ```text
//! init(ctx)
//!     |
//!     v
//! request_offers(ctx) -> Vec<OfferChannel>
//!     |  (pick the offer you want)
//!     v
//! channel::open_channel(...)
//!     |
//!     v
//! ring::SendRing / RecvRing  <- per-channel I/O
//!     |
//!     v
//! unload(ctx)
//! ```
//!
//! All hypercalls flow through a caller-supplied
//! [`hypercalls::HypercallTrait`] implementation, and what outlives a
//! call stands in a [`state::VmbusState`] that the caller owns.
//!
//! Every high-level function has a `_with` variant in the same module
//! that takes a [`message::CompletionTable`] and a
//! [`connection::MessagePump`], for callers that want to build a
//! composite pump. Do not mix the two: a caller that registers a
//! completion with a custom table but polls with another will never see
//! its completion delivered.
pub mod channel;
pub mod connection;
pub mod devices;
pub mod error;
pub mod executor;
pub mod functions;
pub mod fuzz;
pub mod gpadl;
pub mod hv;
pub mod hvsock;
pub mod hypercalls;
pub mod interrupt;
pub mod invariant_executor;
pub mod laws;
pub mod le;
pub mod message;
pub mod packet;
pub mod protocol;
pub mod ring;
pub mod ring_model;
pub mod state;
pub mod synic;
pub mod wire;

pub use crate::error::Error;
pub use crate::error::Result;

use crate::channel::Channel;
use crate::error::TmkError;
use crate::gpadl::GpadlHandle;
use crate::hv::HvInputVtl;
use crate::hvsock::ConnectResultHandler;
use crate::hypercalls::HvCtx;
use crate::hypercalls::HvEvent;
use crate::hypercalls::HypercallTrait;
use crate::protocol::ChannelId;
use crate::protocol::Guid;
use crate::protocol::OfferChannel;
use crate::protocol::RequestOffers;
use crate::protocol::Unload;
use crate::protocol::Version;
use crate::protocol::HV_PAGE_SIZE;
use crate::state::VmbusState;
use crate::synic::SynicPages;
use crate::synic::VMBUS_INTERRUPT_VECTOR;
use vstd::prelude::*;

verus! {

broadcast use crate::hypercalls::group_ran;

/// Initialising over the guest's state went like this.
pub open spec fn inited<H: ConnectResultHandler>(
    state: (VmbusState<H>, VmbusState<H>),
    log: (Seq<HvEvent>, Seq<HvEvent>),
    pages: Option<SynicPages>,
    r: Result<()>,
) -> bool {
    &&& log.0.is_prefix_of(log.1)
    &&& match pages {
        None => {
            &&& r == Err::<(), Error>(Error::Hypercall(TmkError::AllocationFailed))
            &&& log.1 == log.0
            &&& state.1 == state.0
        },
        Some(p) => if p.simp_gpa % HV_PAGE_SIZE != 0 || p.siefp_gpa % HV_PAGE_SIZE != 0 {
            &&& r == Err::<(), Error>(
                Error::Parse { ty: None, reason: "SynIC pages must be 4 KiB aligned" },
            )
            &&& log.1 == log.0
            &&& state.1 == state.0
        } else {
            let ev = log.1.skip(log.0.len() as int);
            &&& ev.len() >= 1
            &&& hypercalls::is_register_write(
                ev[0],
                HvInputVtl(HvInputVtl::CURRENT_VTL),
                synic::synic_registers(p.simp_gpa, p.siefp_gpa, VMBUS_INTERRUPT_VECTOR),
                hypercalls::call_result(ev[0]),
            )
            &&& match hypercalls::call_result(ev[0]) {
                Err(e) => {
                    &&& ev.len() == 1
                    &&& r == Err::<(), Error>(e)
                    &&& state.1 == state.0
                },
                Ok(_) => {
                    &&& state.1.synic == Some(p)
                    &&& state.1.gpadl_ids.next == state.0.gpadl_ids.next
                    &&& state.1.open_ids.next == state.0.open_ids.next
                    &&& connection::drains_simp(Some(p), log)
                    &&& hvsock::handler_after(
                        state.0.handler,
                        connection::routed_in(ev),
                        state.1.handler,
                    )
                    &&& exists|client: Guid| #[trigger]
                        connection::is_client_id(client) && connection::negotiation(
                            Version::NEGOTIATION_LADDER@,
                            client,
                            (state.0.table@, state.1.table@),
                            ev.skip(1),
                            match r {
                                Ok(_) => Ok(state.1.connection->0),
                                Err(e) => Err(e),
                            },
                        )
                    &&& match r {
                        Ok(_) => state.1.connection is Some,
                        Err(_) => state.1.connection == state.0.connection,
                    }
                },
            }
        },
    }
}

/// Initialise the guest-side VMBus stack: bring up SynIC on the current
/// VP and negotiate a protocol version with the host.
///
/// `pages` is what the platform allocated for the SynIC, `None` where it
/// could not.
///
/// After this call succeeds, use [`request_offers`] to enumerate channels
/// and [`channel::open_channel`] to open one.
///
/// Delegates to [`synic::init_synic`] and [`connection::initiate`].
pub fn init<C: HypercallTrait, H: ConnectResultHandler>(
    ctx: &mut HvCtx<C>,
    state: &mut VmbusState<H>,
    pages: Option<SynicPages>,
) -> (r: Result<()>)
    ensures
        old(ctx).ran_to(*final(ctx)),
        inited((*old(state), *final(state)), (old(ctx).log(), final(ctx).log()), pages, r),
{
    let ghost before = ctx.log();
    match synic::init_synic(ctx, &mut state.synic, pages) {
        Ok(()) => {},
        Err(e) => {
            proof {
                if ctx.log() != before {
                    connection::lemma_one_more(before, ctx.log());
                }
            }
            return Err(e);
        },
    }
    let ghost mid = ctx.log();
    proof {
        connection::lemma_one_more(before, mid);
    }
    let r = connection::initiate(ctx, state);
    proof {
        let ev = ctx.log().skip(before.len() as int);
        assert(ev[0] == mid.last()) by {
            assert(ctx.log()[before.len() as int] == mid[before.len() as int]);
        }
        assert(ev.skip(1) =~= ctx.log().skip(mid.len() as int));
        assert(ev =~= seq![ev[0]] + ev.skip(1));
        reveal_with_fuel(connection::routed_in, 2);
        connection::lemma_routed_in(seq![ev[0]], ev.skip(1));
        assert(connection::routed_in(ev) =~= connection::routed_in(ev.skip(1)));
        assert forall|i: int| before.len() <= i < ctx.log().len() implies #[trigger]
            connection::from_slot(
            Some(
                (
                    interrupt::slot_gpa(state.synic->0.simp_gpa),
                    interrupt::DEFAULT_RETRIES as nat,
                ),
            ),
            ctx.log()[i],
        ) by {
            if i == before.len() {
                assert(ctx.log()[i] == ev[0]);
            }
        }
        assert forall|i: int| 0 <= i < before.len() implies before[i] == #[trigger] ctx.log()[i] by {
            assert(mid[i] == ctx.log()[i]);
        }
    }
    r
}

/// Law: once initialisation has succeeded, asking for the offers and
/// unloading go out to the host, on the connection that was agreed on.
pub proof fn law_init_opens_session<H: ConnectResultHandler>(
    state: (VmbusState<H>, VmbusState<H>),
    log: (Seq<HvEvent>, Seq<HvEvent>),
    pages: Option<SynicPages>,
)
    requires
        inited(state, log, pages, Ok(())),
    ensures
        state.1.synic == pages,
        forall|s: VmbusState<H>, l: (Seq<HvEvent>, Seq<HvEvent>), r: Result<Seq<OfferChannel>>|
            #[trigger] connection::offers_asked((state.1, s), l, r) ==> l.0.len() < l.1.len()
                && connection::posts(
                l.1.skip(l.0.len() as int)[0],
                state.1.connection->0.post_message_connection_id,
                protocol::message_bytes(RequestOffers),
            ),
        forall|s: VmbusState<H>, l: (Seq<HvEvent>, Seq<HvEvent>), r: Result<()>|
            #[trigger] connection::unloaded((state.1, s), l, r) ==> l.0.len() < l.1.len()
                && connection::posts(
                l.1.skip(l.0.len() as int)[0],
                state.1.connection->0.post_message_connection_id,
                protocol::message_bytes(Unload),
            ),
{
}

/// Law: once unloading has succeeded, every operation that needs the
/// connection is refused and sends nothing, until the stack is
/// initialised again.
pub proof fn law_unload_ends_session<H: ConnectResultHandler>(
    state: (VmbusState<H>, VmbusState<H>),
    log: (Seq<HvEvent>, Seq<HvEvent>),
)
    requires
        connection::unloaded(state, log, Ok(())),
    ensures
        forall|s: VmbusState<H>, l: (Seq<HvEvent>, Seq<HvEvent>), r: Result<Seq<OfferChannel>>|
            #[trigger] connection::offers_asked((state.1, s), l, r) ==> l.1 == l.0 && r == Err::<
                Seq<OfferChannel>,
                Error,
            >(Error::VersionMismatch),
        forall|s: VmbusState<H>, l: (Seq<HvEvent>, Seq<HvEvent>), r: Result<()>|
            #[trigger] connection::unloaded((state.1, s), l, r) ==> l.1 == l.0 && r == Err::<
                (),
                Error,
            >(Error::VersionMismatch),
        forall|
            s: VmbusState<H>,
            l: (Seq<HvEvent>, Seq<HvEvent>),
            channel_id: ChannelId,
            gpadl: GpadlHandle,
            pages: u32,
            connection_id: u32,
            event_flag: u16,
            r: Result<Channel>,
        | #[trigger]
            channel::opened_over(
                (state.1, s),
                l,
                channel_id,
                gpadl,
                pages,
                connection_id,
                event_flag,
                r,
            ) ==> l.1 == l.0 && r == Err::<Channel, Error>(Error::VersionMismatch),
        forall|l: (Seq<HvEvent>, Seq<HvEvent>), c: Channel, r: Result<()>| #[trigger]
            channel::closed_over(state.1.connection, l, c, r) ==> l.1 == l.0 && r == Err::<
                (),
                Error,
            >(Error::VersionMismatch),
{
}

/// Post a `RequestOffers` and collect the returned `OfferChannel` messages
/// until `AllOffersDelivered` is received.
///
/// Returns the offers in the order the host delivered them. Compare
/// `OfferChannel::interface_id` against a known device GUID to pick the
/// offer you want.
pub fn request_offers<C: HypercallTrait, H: ConnectResultHandler>(
    ctx: &mut HvCtx<C>,
    state: &mut VmbusState<H>,
) -> (r: Result<Vec<OfferChannel>>)
    ensures
        old(ctx).ran_to(*final(ctx)),
        connection::offers_asked(
            (*old(state), *final(state)),
            (old(ctx).log(), final(ctx).log()),
            connection::offers_got(r),
        ),
{
    connection::request_offers(ctx, state)
}

/// Post an `Unload` and wait for `UnloadComplete`, then clear the
/// connection state.
///
/// After this returns, any subsequent VMBus operation must go through
/// [`init`] again.
pub fn unload<C: HypercallTrait, H: ConnectResultHandler>(
    ctx: &mut HvCtx<C>,
    state: &mut VmbusState<H>,
) -> (r: Result<()>)
    ensures
        old(ctx).ran_to(*final(ctx)),
        connection::unloaded(
            (*old(state), *final(state)),
            (old(ctx).log(), final(ctx).log()),
            r,
        ),
{
    connection::unload(ctx, state)
}

} // verus!
