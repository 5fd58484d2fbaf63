//! hv-socket wire helpers.
//!
//! Covers:
//! * an outbound `TlConnectRequest[/2]` helper, and
//! * a callback slot for the resulting `TlConnectResult`.
use crate::connection::ConnectionState;
use crate::error::Error;
use crate::error::Result;
use crate::hypercalls;
use crate::hypercalls::post_message;
use crate::hypercalls::HvCtx;
use crate::hypercalls::HypercallTrait;
use crate::message;
use crate::message::encode_to_vec;
use crate::message::MessageSink;
use crate::protocol;
use crate::protocol::Guid;
use crate::protocol::OfferChannel;
use crate::protocol::RescindChannelOffer;
use crate::protocol::TlConnectRequest;
use crate::protocol::TlConnectRequest2;
use crate::protocol::TlConnectResult;
use crate::protocol::Version;
use vstd::prelude::*;

verus! {

broadcast use crate::hypercalls::group_ran;

/// Callback fired when the host sends `TlConnectResult`.
pub trait ConnectResultHandler: Sized {
    /// `next` is what handling `result` leaves of `self`. By default
    /// nothing is known of it.
    open spec fn handled(self, result: TlConnectResult, next: Self) -> bool {
        true
    }

    /// Take notice of `result`.
    fn handle(&mut self, result: &TlConnectResult)
        ensures
            old(self).handled(*result, *final(self)),
    ;
}

/// A handler that takes no notice. Installing it undoes an earlier
/// registration.
#[derive(Copy, Clone, Debug)]
pub struct IgnoreResults;

impl ConnectResultHandler for IgnoreResults {
    open spec fn handled(self, result: TlConnectResult, next: Self) -> bool {
        next == self
    }

    fn handle(&mut self, result: &TlConnectResult) {
    }
}

/// Register a handler to receive `TlConnectResult` messages.
///
/// The handler replaces any previous registration in `slot`.
pub fn set_connect_result_handler<H: ConnectResultHandler>(slot: &mut Option<H>, handler: H)
    ensures
        *final(slot) == Some(handler),
{
    *slot = Some(handler);
}

/// `next` is what dispatching `result` leaves of the handler slot.
pub open spec fn dispatched<H: ConnectResultHandler>(
    slot: Option<H>,
    result: TlConnectResult,
    next: Option<H>,
) -> bool {
    match slot {
        Some(h) => next matches Some(n) && h.handled(result, n),
        None => next is None,
    }
}

/// Dispatch a decoded `TlConnectResult` to the registered handler, if
/// any.
pub fn dispatch_connect_result<H: ConnectResultHandler>(
    slot: &mut Option<H>,
    result: &TlConnectResult,
)
    ensures
        dispatched(*old(slot), *result, *final(slot)),
{
    match slot.take() {
        Some(h) => {
            let mut handler = h;
            handler.handle(result);
            *slot = Some(handler);
        },
        None => {},
    }
}

/// Where messages go: a sink, and the slot of the registered handler, which
/// hears of connect results whatever the sink does with them.
pub struct HandlerSink<S: MessageSink, H: ConnectResultHandler> {
    /// Sees everything that a sink sees.
    pub inner: S,
    /// The registered handler, if there is one.
    pub handler: Option<H>,
}

impl<S: MessageSink, H: ConnectResultHandler> MessageSink for HandlerSink<S, H> {
    open spec fn offered(self, offer: OfferChannel, next: Self) -> bool {
        &&& self.inner.offered(offer, next.inner)
        &&& next.handler == self.handler
    }

    open spec fn rescinded(self, rescind: RescindChannelOffer, next: Self) -> bool {
        &&& self.inner.rescinded(rescind, next.inner)
        &&& next.handler == self.handler
    }

    open spec fn connect_answered(self, result: TlConnectResult, next: Self) -> bool {
        &&& self.inner.connect_answered(result, next.inner)
        &&& dispatched(self.handler, result, next.handler)
    }

    fn offer(&mut self, offer: &OfferChannel) {
        self.inner.offer(offer);
    }

    fn rescind(&mut self, rescind: &RescindChannelOffer) {
        self.inner.rescind(rescind);
    }

    fn tl_connect_result(&mut self, result: &TlConnectResult) {
        self.inner.tl_connect_result(result);
        dispatch_connect_result(&mut self.handler, result);
    }
}

/// Law: the sink inside sees exactly what it would see without the
/// handler.
pub proof fn law_inner_sink<S: MessageSink, H: ConnectResultHandler>(
    s: HandlerSink<S, H>,
    messages: Seq<Seq<u8>>,
    next: HandlerSink<S, H>,
)
    requires
        message::sink_after(s, messages, next),
    ensures
        message::sink_after(s.inner, messages, next.inner),
    decreases messages.len(),
{
    if messages.len() > 0 {
        let mid = choose|mid: HandlerSink<S, H>|
            message::sink_after(s, messages.drop_last(), mid) && #[trigger] message::routed_sink(
                mid,
                messages.last(),
                next,
            );
        law_inner_sink(s, messages.drop_last(), mid);
        assert(message::routed_sink(mid.inner, messages.last(), next.inner));
    }
}

/// `next` is what routing a message leaves of the handler slot.
pub open spec fn handler_saw<H: ConnectResultHandler>(
    slot: Option<H>,
    bytes: Seq<u8>,
    next: Option<H>,
) -> bool {
    match message::parsed::<TlConnectResult>(bytes) {
        Ok(result) => dispatched(slot, result, next),
        Err(_) => next == slot,
    }
}

/// `next` is what routing a run of messages leaves of the handler slot:
/// the connect results among them were dispatched, one after the other.
pub open spec fn handler_after<H: ConnectResultHandler>(
    slot: Option<H>,
    messages: Seq<Seq<u8>>,
    next: Option<H>,
) -> bool
    decreases messages.len(),
{
    if messages.len() == 0 {
        next == slot
    } else {
        exists|mid: Option<H>|
            handler_after(slot, messages.drop_last(), mid) && #[trigger] handler_saw(
                mid,
                messages.last(),
                next,
            )
    }
}

/// Law: the handler sees every connect result that is routed, in order,
/// and nothing else.
pub proof fn law_handler_sees<S: MessageSink, H: ConnectResultHandler>(
    s: HandlerSink<S, H>,
    messages: Seq<Seq<u8>>,
    next: HandlerSink<S, H>,
)
    requires
        message::sink_after(s, messages, next),
    ensures
        handler_after(s.handler, messages, next.handler),
    decreases messages.len(),
{
    if messages.len() > 0 {
        let mid = choose|mid: HandlerSink<S, H>|
            message::sink_after(s, messages.drop_last(), mid) && #[trigger] message::routed_sink(
                mid,
                messages.last(),
                next,
            );
        law_handler_sees(s, messages.drop_last(), mid);
        assert(handler_saw(mid.handler, messages.last(), next.handler));
    }
}

/// One run of messages after the other.
pub proof fn lemma_handler_after<H: ConnectResultHandler>(
    slot: Option<H>,
    first: Seq<Seq<u8>>,
    mid: Option<H>,
    second: Seq<Seq<u8>>,
    next: Option<H>,
)
    requires
        handler_after(slot, first, mid),
        handler_after(mid, second, next),
    ensures
        handler_after(slot, first + second, next),
    decreases second.len(),
{
    if second.len() == 0 {
        assert(first + second =~= first);
    } else {
        let last = choose|last: Option<H>|
            handler_after(mid, second.drop_last(), last) && #[trigger] handler_saw(
                last,
                second.last(),
                next,
            );
        lemma_handler_after(slot, first, mid, second.drop_last(), last);
        assert((first + second).drop_last() =~= first + second.drop_last());
        assert((first + second).last() == second.last());
    }
}

/// Law: routing messages neither registers a handler nor removes one.
pub proof fn law_handler_stays<H: ConnectResultHandler>(
    slot: Option<H>,
    messages: Seq<Seq<u8>>,
    next: Option<H>,
)
    requires
        handler_after(slot, messages, next),
    ensures
        next is Some <==> slot is Some,
    decreases messages.len(),
{
    if messages.len() > 0 {
        let mid = choose|mid: Option<H>|
            handler_after(slot, messages.drop_last(), mid) && #[trigger] handler_saw(
                mid,
                messages.last(),
                next,
            );
        law_handler_stays(slot, messages.drop_last(), mid);
    }
}

/// The connect request for this version: with the silo where there is
/// one and the version knows of silos.
pub open spec fn connect_bytes(
    version: Version,
    endpoint_id: Guid,
    service_id: Guid,
    silo: Option<Guid>,
) -> Seq<u8> {
    let base = TlConnectRequest { endpoint_id, service_id };
    if silo is Some && version.number() >= Version::Win10Rs5.number() {
        protocol::message_bytes(TlConnectRequest2 { base, silo_id: silo->0 })
    } else {
        protocol::message_bytes(base)
    }
}

/// Encode a `TlConnectRequest[/2]` for the given endpoint / service /
/// silo, picking the wire layout based on the negotiated version and
/// whether a silo id was supplied.
///
/// Returns the byte buffer ready to be posted via
/// [`crate::hypercalls::post_message`].
pub fn encode_tl_connect_request(
    version: Version,
    endpoint_id: Guid,
    service_id: Guid,
    silo: Option<Guid>,
) -> (r: Vec<u8>)
    ensures
        r@ == connect_bytes(version, endpoint_id, service_id, silo),
{
    let base = TlConnectRequest { endpoint_id, service_id };
    match silo {
        Some(silo_id) => if version.at_least(Version::Win10Rs5) {
            let msg = TlConnectRequest2 { base, silo_id };
            encode_to_vec(&msg)
        } else {
            encode_to_vec(&base)
        },
        None => encode_to_vec(&base),
    }
}

/// Post a `TlConnectRequest[/2]` and return immediately without
/// waiting for `TlConnectResult`. The result arrives asynchronously
/// through the message-page drain and is delivered to the handler
/// registered via [`set_connect_result_handler`].
///
/// Requires a negotiated connection.
pub fn send_hvsock_connect<C: HypercallTrait>(
    ctx: &mut HvCtx<C>,
    connection: Option<ConnectionState>,
    endpoint: Guid,
    service: Guid,
    silo: Option<Guid>,
) -> (r: Result<()>)
    ensures
        old(ctx).ran_to(*final(ctx)),
        match connection {
            None => r == Err::<(), Error>(Error::VersionMismatch) && final(ctx).log() == old(
                ctx,
            ).log(),
            Some(state) => {
                &&& hypercalls::one_more(old(ctx).log(), final(ctx).log())
                &&& final(ctx).log().last().is_post(
                    state.post_message_connection_id,
                    connect_bytes(state.selected_version, endpoint, service, silo),
                    r,
                )
            },
        },
{
    let state = match connection {
        Some(state) => state,
        None => return Err(Error::VersionMismatch),
    };
    let payload = encode_tl_connect_request(state.selected_version, endpoint, service, silo);
    post_message(ctx, state.post_message_connection_id, payload.as_slice())
}

} // verus!
