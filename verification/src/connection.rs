//! `InitiateContact` / `VersionResponse` negotiation and top-level
//! connection state.
//!
//! # Structure
//!
//! * The wire-format work (encode an `InitiateContact[/2]`, parse a
//!   `VersionResponse[/2/3]`) is pure computation.
//! * The state machine (walk the ladder, register a completion, post,
//!   drain the message page, take the response) works over any
//!   [`MessagePump`].
use crate::error::Error;
use crate::error::Result;
use crate::hvsock;
use crate::hvsock::ConnectResultHandler;
use crate::hvsock::HandlerSink;
use crate::hypercalls;
use crate::hypercalls::post_message;
use crate::hypercalls::HvCtx;
use crate::hypercalls::HvEvent;
use crate::hypercalls::HypercallTrait;
use crate::interrupt;
use crate::interrupt::SimpPump;
use crate::message;
use crate::message::encode_to_vec;
use crate::message::CompletionHandle;
use crate::message::CompletionKey;
use crate::message::CompletionTable;
use crate::message::MessageSink;
use crate::message::SlotState;
use crate::protocol;
use crate::protocol::FeatureFlags;
use crate::protocol::Guid;
use crate::protocol::InitiateContact;
use crate::protocol::InitiateContact2;
use crate::protocol::OfferChannel;
use crate::protocol::RequestOffers;
use crate::protocol::RescindChannelOffer;
use crate::protocol::TargetInfo;
use crate::protocol::TlConnectResult;
use crate::protocol::Unload;
use crate::protocol::Version;
use crate::protocol::VersionResponse;
use crate::protocol::VersionResponse2;
use crate::protocol::VersionResponse3;
use crate::protocol::HEADER_SIZE;
use crate::protocol::VMBUS_CONNECTION_ID_LEGACY;
use crate::protocol::VMBUS_CONNECTION_ID_MODERN;
use crate::state::VmbusState;
use crate::synic::synic_pages;
use crate::synic::SynicPages;
use crate::synic::VMBUS_SINT;
use crate::wire;
use crate::wire::Wire;
use vstd::prelude::*;

verus! {

broadcast use crate::hypercalls::group_ran;

/// Top-level connection state established after successful negotiation.
#[derive(Copy, Clone, Debug, PartialEq, Eq, Structural)]
pub struct ConnectionState {
    /// Version selected by the host.
    pub selected_version: Version,
    /// Connection ID to use for `HvCallPostMessage` from now on.
    pub post_message_connection_id: u32,
    /// Feature flags supported by both sides.
    pub feature_flags: FeatureFlags,
    /// Server-provided parent to child monitor page GPA, if any.
    pub parent_to_child_monitor_page_gpa: u64,
    /// Server-provided child to parent monitor page GPA, if any.
    pub child_to_parent_monitor_page_gpa: u64,
}

/// Connection id that [`initial_connection_id`] gives.
pub open spec fn initial_id(version: Version) -> u32 {
    if version.number() < Version::Win10Rs3_1.number() {
        VMBUS_CONNECTION_ID_LEGACY
    } else {
        VMBUS_CONNECTION_ID_MODERN
    }
}

/// The initial connection id to use when posting `InitiateContact` for
/// the given `version`.
///
/// * `< 5.0`: legacy id (1).
/// * `>= 5.0`: modern id (4), overridden by the id returned in
///   `VersionResponse` after negotiation.
pub fn initial_connection_id(version: Version) -> (r: u32)
    ensures
        r == initial_id(version),
{
    if version.at_least(Version::Win10Rs3_1) {
        VMBUS_CONNECTION_ID_MODERN
    } else {
        VMBUS_CONNECTION_ID_LEGACY
    }
}

/// The request for `version`, without a client id.
pub open spec fn contact_for(version: Version, feature_flags: FeatureFlags) -> InitiateContact {
    InitiateContact {
        version_requested: version.number(),
        target_message_vp: 0,
        interrupt_page_or_target_info: if version.number() >= Version::Win10Rs3_1.number() {
            (VMBUS_SINT + 0x1_0000_0000 * feature_flags.0) as u64
        } else {
            0
        },
        parent_to_child_monitor_page_gpa: 0,
        child_to_parent_monitor_page_gpa: 0,
    }
}

/// The message that asks for `version`.
pub open spec fn contact_bytes(
    version: Version,
    client_id: Option<Guid>,
    feature_flags: FeatureFlags,
) -> Seq<u8> {
    let base = contact_for(version, feature_flags);
    match client_id {
        Some(id) => protocol::message_bytes(
            InitiateContact2 { initiate_contact: base, client_id: id },
        ),
        None => protocol::message_bytes(base),
    }
}

/// Encode an `InitiateContact` (or `InitiateContact2` when
/// `client_id.is_some()`) into wire bytes ready to be posted.
///
/// * `version`: the version being requested.
/// * `client_id`: advertised `CLIENT_ID` (Copper+ only). `None` means
///   post the legacy `InitiateContact` struct.
/// * `feature_flags`: the feature bits we advertise to the host.
pub fn encode_initiate_contact(
    version: Version,
    client_id: Option<Guid>,
    feature_flags: FeatureFlags,
) -> (r: Vec<u8>)
    ensures
        r@ == contact_bytes(version, client_id, feature_flags),
{
    // Either a raw interrupt-page GPA (< 5.0) or a `TargetInfo`
    // (>= 5.0). We never use interrupt pages, so leave it zero for
    // legacy versions.
    let interrupt_page_or_target_info: u64 = if version.at_least(Version::Win10Rs3_1) {
        let info = TargetInfo::new().with_sint(VMBUS_SINT).with_vtl(0).with_feature_flags(
            feature_flags.into_bits(),
        );
        info.0
    } else {
        0
    };
    let base = InitiateContact {
        version_requested: version.raw(),
        target_message_vp: 0,
        interrupt_page_or_target_info,
        parent_to_child_monitor_page_gpa: 0,
        child_to_parent_monitor_page_gpa: 0,
    };
    match client_id {
        Some(id) => {
            let msg = InitiateContact2 { initiate_contact: base, client_id: id };
            encode_to_vec(&msg)
        },
        None => encode_to_vec(&base),
    }
}

/// Parsed `VersionResponse` broken down into its interesting fields.
#[derive(Copy, Clone, Debug, Eq, PartialEq, Structural)]
pub struct ParsedVersionResponse {
    /// Whether the host accepted the requested version.
    pub version_supported: bool,
    /// New post-message connection id (>= 5.0) or the selected
    /// pre-5.0 version. Only meaningful when `version_supported`.
    pub selected_version_or_connection_id: u32,
    /// Server-advertised feature flags (Copper+).
    pub supported_features: FeatureFlags,
    /// Server-provided monitor pages (Copper+ with
    /// `SERVER_SPECIFIED_MONITOR_PAGES`).
    pub parent_to_child_monitor_page_gpa: u64,
    /// Server-provided monitor pages.
    pub child_to_parent_monitor_page_gpa: u64,
}

/// A `VersionResponse` message, in the longest layout that it is long
/// enough for.
pub open spec fn version_response(bytes: Seq<u8>) -> Result<ParsedVersionResponse> {
    match message::parsed::<VersionResponse>(bytes) {
        Err(e) => Err(e),
        Ok(base) => {
            let body_len = bytes.len() - 8;
            let v2 = wire::decoded::<VersionResponse2>(bytes.subrange(8, 20));
            let v3 = wire::decoded::<VersionResponse3>(bytes.subrange(8, 40));
            Ok(
                ParsedVersionResponse {
                    version_supported: base.version_supported != 0,
                    selected_version_or_connection_id: base.selected_version_or_connection_id,
                    supported_features: if body_len >= 32 {
                        FeatureFlags(v3.version_response2.supported_features)
                    } else if body_len >= 12 {
                        FeatureFlags(v2.supported_features)
                    } else {
                        FeatureFlags(0)
                    },
                    parent_to_child_monitor_page_gpa: if body_len >= 32 {
                        v3.parent_to_child_monitor_page_gpa
                    } else {
                        0
                    },
                    child_to_parent_monitor_page_gpa: if body_len >= 32 {
                        v3.child_to_parent_monitor_page_gpa
                    } else {
                        0
                    },
                },
            )
        },
    }
}

/// Parse a raw `VersionResponse` message body into
/// [`ParsedVersionResponse`], picking `VersionResponse2` /
/// `VersionResponse3` layout based on the byte length.
///
/// `bytes` is expected to start at the vmbus `MessageHeader`.
pub fn parse_version_response(bytes: &[u8]) -> (r: Result<ParsedVersionResponse>)
    ensures
        r == version_response(bytes@),
{
    let base: VersionResponse = match message::parse(bytes) {
        Ok(m) => m,
        Err(e) => return Err(e),
    };
    let body_len = bytes.len() - HEADER_SIZE;
    let (supported_features, p2c, c2p): (FeatureFlags, u64, u64) = if body_len
        >= VersionResponse3::wire_size() {
        let v3 = match message::parse::<VersionResponse3>(bytes) {
            Ok(m) => m,
            Err(e) => return Err(e),
        };
        (
            FeatureFlags::from_bits(v3.version_response2.supported_features),
            v3.parent_to_child_monitor_page_gpa,
            v3.child_to_parent_monitor_page_gpa,
        )
    } else if body_len >= VersionResponse2::wire_size() {
        let v2 = match message::parse::<VersionResponse2>(bytes) {
            Ok(m) => m,
            Err(e) => return Err(e),
        };
        (FeatureFlags::from_bits(v2.supported_features), 0, 0)
    } else {
        (FeatureFlags::new(), 0, 0)
    };
    Ok(
        ParsedVersionResponse {
            version_supported: base.version_supported != 0,
            selected_version_or_connection_id: base.selected_version_or_connection_id,
            supported_features,
            parent_to_child_monitor_page_gpa: p2c,
            child_to_parent_monitor_page_gpa: c2p,
        },
    )
}

/// The connection that an accepted version gives.
pub open spec fn state_for(version: Version, parsed: ParsedVersionResponse) -> ConnectionState {
    ConnectionState {
        selected_version: version,
        post_message_connection_id: if version.number() >= Version::Win10Rs3_1.number() {
            parsed.selected_version_or_connection_id
        } else {
            VMBUS_CONNECTION_ID_LEGACY
        },
        feature_flags: parsed.supported_features,
        parent_to_child_monitor_page_gpa: parsed.parent_to_child_monitor_page_gpa,
        child_to_parent_monitor_page_gpa: parsed.child_to_parent_monitor_page_gpa,
    }
}

/// Convert a [`ParsedVersionResponse`] into a [`ConnectionState`] given
/// the version that produced it.
pub fn build_connection_state(version: Version, parsed: ParsedVersionResponse) -> (r:
    ConnectionState)
    ensures
        r == state_for(version, parsed),
{
    let post_message_connection_id = if version.at_least(Version::Win10Rs3_1) {
        // On >= 5.0 the host returns the connection id to use.
        parsed.selected_version_or_connection_id
    } else {
        VMBUS_CONNECTION_ID_LEGACY
    };
    ConnectionState {
        selected_version: version,
        post_message_connection_id,
        feature_flags: parsed.supported_features,
        parent_to_child_monitor_page_gpa: parsed.parent_to_child_monitor_page_gpa,
        child_to_parent_monitor_page_gpa: parsed.child_to_parent_monitor_page_gpa,
    }
}

// ---------------------------------------------------------------------------
// Pumps and sinks
// ---------------------------------------------------------------------------
/// Trait describing how the negotiation state machine drains the
/// message page.
///
/// The state machine posts a request and then calls
/// [`MessagePump::poll_until`] until the supplied completion handle is
/// filled or the pump gives up (via [`Error::Timeout`]).
///
/// The `sink` is fed every non-completion message the pump encounters
/// while draining: this is how `OfferChannel` messages reach the caller
/// during [`request_offers_with`].
pub trait MessagePump {
    /// The address of the slot that the pump reads its messages from, and
    /// how often a poll reads it at most, if the pump reads a slot. By
    /// default nothing is known of it.
    open spec fn source(&self) -> Option<(u64, nat)> {
        None
    }

    /// Poll the message page (or equivalent) until the completion that
    /// `handle` waits for is in `table`, or return [`Error::Timeout`].
    /// The messages seen during the drain are routed, one after the
    /// other, to `table` and `sink`.
    ///
    /// `ctx` is passed through so the pump can issue further
    /// hypercalls (notably `HvCallSetVpRegisters` to write EOM).
    fn poll_until<C: HypercallTrait, S: MessageSink, H: ConnectResultHandler>(
        &mut self,
        ctx: &mut HvCtx<C>,
        table: &mut CompletionTable,
        handle: &CompletionHandle,
        sink: &mut HandlerSink<S, H>,
    ) -> (r: Result<()>)
        ensures
            final(self).source() == old(self).source(),
            old(ctx).ran_to(*final(ctx)),
            old(ctx).log().is_prefix_of(final(ctx).log()),
            exists|messages: Seq<Seq<u8>>|
                {
                    &&& final(table)@ == message::table_after(old(table)@, messages)
                    &&& #[trigger] message::sink_after(*old(sink), messages, *final(sink))
                    &&& old(self).source() is Some ==> messages == routed_in(
                        final(ctx).log().skip(old(ctx).log().len() as int),
                    )
                },
            old(self).source() matches Some(at) ==> interrupt::poll_run(
                at.0,
                *handle,
                at.1,
                (old(table)@, final(table)@),
                final(ctx).log().skip(old(ctx).log().len() as int),
                r,
            ),
            r is Ok ==> handle.completed_in(final(table)@),
    ;
}

/// The messages that an event routed.
pub open spec fn routed_by(ev: HvEvent) -> Seq<Seq<u8>> {
    match ev {
        HvEvent::Polled { messages, .. } => messages,
        HvEvent::SlotRead { bytes, .. } => match interrupt::drain_message(bytes) {
            Some(payload) => seq![payload],
            None => Seq::empty(),
        },
        _ => Seq::empty(),
    }
}

/// The messages that the events `ev` routed, in order.
pub open spec fn routed_in(ev: Seq<HvEvent>) -> Seq<Seq<u8>>
    decreases ev.len(),
{
    if ev.len() == 0 {
        Seq::empty()
    } else {
        routed_in(ev.drop_last()) + routed_by(ev.last())
    }
}

/// What two runs of events routed, one after the other.
pub proof fn lemma_routed_in(a: Seq<HvEvent>, b: Seq<HvEvent>)
    ensures
        routed_in(a + b) == routed_in(a) + routed_in(b),
    decreases b.len(),
{
    if b.len() == 0 {
        assert(a + b =~= a);
        assert(routed_in(a) + routed_in(b) =~= routed_in(a));
    } else {
        lemma_routed_in(a, b.drop_last());
        assert((a + b).drop_last() =~= a + b.drop_last());
        assert(routed_in(a + b) =~= routed_in(a) + routed_in(b));
    }
}

/// Where the event is a drain by a pump with this source, it routed the
/// messages that stood in the slot, and ended as the reads of the slot
/// have it.
pub open spec fn from_slot(source: Option<(u64, nat)>, ev: HvEvent) -> bool {
    match ev {
        HvEvent::Polled { key, messages, during, result, .. } => match source {
            Some(at) => slot_drained(at.0, at.1, key, messages, during, result),
            None => true,
        },
        _ => true,
    }
}

/// Polling the slot at `gpa` for `key`, at most `retries` times, made the
/// events `during`, routed `messages` and ended in `result`.
pub open spec fn slot_drained(
    gpa: u64,
    retries: nat,
    key: CompletionKey,
    messages: Seq<Seq<u8>>,
    during: Seq<HvEvent>,
    result: Result<()>,
) -> bool {
    &&& messages == routed_in(during)
    &&& exists|handle: CompletionHandle, table: (Seq<SlotState>, Seq<SlotState>)|
        {
            &&& handle.for_key() == key
            &&& table.1 == message::table_after(table.0, messages)
            &&& #[trigger] interrupt::poll_run(gpa, handle, retries, table, during, result)
        }
}

/// All drains between the two logs are by a pump with this source.
pub open spec fn drains_from(
    source: Option<(u64, nat)>,
    before: Seq<HvEvent>,
    after: Seq<HvEvent>,
) -> bool {
    forall|i: int| before.len() <= i < after.len() ==> #[trigger] from_slot(source, after[i])
}

/// All drains between the two logs are of the VMBus slot of the
/// programmed message page, by a pump with the usual bound.
pub open spec fn drains_simp(
    synic: Option<SynicPages>,
    log: (Seq<HvEvent>, Seq<HvEvent>),
) -> bool {
    match synic {
        Some(pages) => drains_from(
            Some((interrupt::slot_gpa(pages.simp_gpa), interrupt::DEFAULT_RETRIES as nat)),
            log.0,
            log.1,
        ),
        None => true,
    }
}

/// One stretch of the log after the other.
pub(crate) proof fn lemma_drains_from(
    source: Option<(u64, nat)>,
    a: Seq<HvEvent>,
    b: Seq<HvEvent>,
    c: Seq<HvEvent>,
)
    requires
        b.is_prefix_of(c),
        drains_from(source, a, b),
        drains_from(source, b, c),
    ensures
        drains_from(source, a, c),
{
    assert forall|i: int| a.len() <= i < c.len() implies #[trigger] from_slot(source, c[i]) by {
        if i < b.len() {
            assert(from_slot(source, b[i]));
            assert(b[i] == c[i]);
        }
    }
}

/// The event is a drain for `handle` that ended in `result`, and brought
/// table and sink from the first state to the second.
pub open spec fn is_poll<S: MessageSink>(
    ev: HvEvent,
    handle: CompletionHandle,
    result: Result<()>,
    table: (Seq<SlotState>, Seq<SlotState>),
    sink: (S, S),
) -> bool {
    &&& ev matches HvEvent::Polled { key, messages, during, result: r, response }
    &&& key == handle.for_key()
    &&& r == result
    &&& table.1 == message::table_after(table.0, messages)
    &&& message::sink_after(sink.0, messages, sink.1)
    &&& response == handle.response_in(table.1)
    &&& r is Ok ==> handle.completed_in(table.1)
}

/// Drain until `handle` is filled, and record the drain as one event.
pub(crate) fn poll_for<C: HypercallTrait, P: MessagePump, S: MessageSink, H: ConnectResultHandler>(
    ctx: &mut HvCtx<C>,
    table: &mut CompletionTable,
    pump: &mut P,
    sink: &mut HandlerSink<S, H>,
    handle: &CompletionHandle,
) -> (r: Result<()>)
    ensures
        old(ctx).ran_to(*final(ctx)),
        final(pump).source() == old(pump).source(),
        from_slot(old(pump).source(), final(ctx).log().last()),
        hypercalls::one_more(old(ctx).log(), final(ctx).log()),
        is_poll(
            final(ctx).log().last(),
            *handle,
            r,
            (old(table)@, final(table)@),
            (*old(sink), *final(sink)),
        ),
{
    let ghost before = ctx.log();
    let r = pump.poll_until(ctx, table, handle, sink);
    let ghost messages = choose|messages: Seq<Seq<u8>>|
        {
            &&& table@ == message::table_after(old(table)@, messages)
            &&& #[trigger] message::sink_after(*old(sink), messages, *sink)
            &&& old(pump).source() is Some ==> messages == routed_in(
                ctx.log().skip(before.len() as int),
            )
        };
    let ghost during = ctx.log().skip(before.len() as int);
    let ghost ev = HvEvent::Polled {
        key: handle.for_key(),
        messages,
        during,
        result: r,
        response: handle.response_in(table@),
    };
    proof {
        HvCtx::lemma_ran_to(*old(ctx), *ctx);
    }
    ctx.condense(Ghost(*old(ctx)), Ghost(ev));
    proof {
        assert(ctx.log().drop_last() =~= before);
        if old(pump).source() is Some {
            let at = old(pump).source()->0;
            let states = (old(table)@, table@);
            assert(interrupt::poll_run(at.0, *handle, at.1, states, during, r));
        }
    }
    r
}

/// Sink used during offer enumeration: collect `OfferChannel`s and
/// forward rescinds to a small side buffer.
pub struct OfferCollector {
    /// Offers received so far.
    pub offers: Vec<OfferChannel>,
    /// Rescinds received while enumerating (rare but possible if the
    /// host churns channels).
    pub rescinds: Vec<RescindChannelOffer>,
}

impl Default for OfferCollector {
    fn default() -> (r: Self)
        ensures
            r.offers@.len() == 0,
            r.rescinds@.len() == 0,
    {
        OfferCollector { offers: Vec::new(), rescinds: Vec::new() }
    }
}

impl MessageSink for OfferCollector {
    open spec fn offered(self, offer: OfferChannel, next: Self) -> bool {
        &&& next.offers@ == self.offers@.push(offer)
        &&& next.rescinds@ == self.rescinds@
    }

    open spec fn rescinded(self, rescind: RescindChannelOffer, next: Self) -> bool {
        &&& next.offers@ == self.offers@
        &&& next.rescinds@ == self.rescinds@.push(rescind)
    }

    open spec fn connect_answered(self, result: TlConnectResult, next: Self) -> bool {
        next == self
    }

    fn offer(&mut self, offer: &OfferChannel) {
        self.offers.push(*offer);
    }

    fn rescind(&mut self, rescind: &RescindChannelOffer) {
        self.rescinds.push(*rescind);
    }

    fn tl_connect_result(&mut self, result: &TlConnectResult) {
    }
}

/// The offers among `messages`, in order.
pub open spec fn offers_in(messages: Seq<Seq<u8>>) -> Seq<OfferChannel>
    decreases messages.len(),
{
    if messages.len() == 0 {
        Seq::empty()
    } else {
        let before = offers_in(messages.drop_last());
        match message::parsed::<OfferChannel>(messages.last()) {
            Ok(offer) => before.push(offer),
            Err(_) => before,
        }
    }
}

/// The rescinds among `messages`, in order.
pub open spec fn rescinds_in(messages: Seq<Seq<u8>>) -> Seq<RescindChannelOffer>
    decreases messages.len(),
{
    if messages.len() == 0 {
        Seq::empty()
    } else {
        let before = rescinds_in(messages.drop_last());
        match message::parsed::<RescindChannelOffer>(messages.last()) {
            Ok(rescind) => before.push(rescind),
            Err(_) => before,
        }
    }
}

/// Law: a collector ends up with exactly the offers and rescinds that
/// were delivered, in the order in which the host delivered them.
pub proof fn law_collector_keeps_order(
    s: OfferCollector,
    messages: Seq<Seq<u8>>,
    next: OfferCollector,
)
    requires
        message::sink_after(s, messages, next),
    ensures
        next.offers@ == s.offers@ + offers_in(messages),
        next.rescinds@ == s.rescinds@ + rescinds_in(messages),
    decreases messages.len(),
{
    if messages.len() == 0 {
        assert(next.offers@ =~= s.offers@ + offers_in(messages));
        assert(next.rescinds@ =~= s.rescinds@ + rescinds_in(messages));
    } else {
        let mid = choose|mid: OfferCollector|
            message::sink_after(s, messages.drop_last(), mid) && #[trigger] message::routed_sink(
                mid,
                messages.last(),
                next,
            );
        law_collector_keeps_order(s, messages.drop_last(), mid);
        assert(next.offers@ =~= s.offers@ + offers_in(messages));
        assert(next.rescinds@ =~= s.rescinds@ + rescinds_in(messages));
    }
}

// ---------------------------------------------------------------------------
// Negotiation
// ---------------------------------------------------------------------------
/// The table once the response in `slot` was taken.
pub open spec fn taken(t: Seq<SlotState>, slot: int) -> Seq<SlotState> {
    if 0 <= slot < t.len() && t[slot].completed {
        t.update(slot, SlotState { response: None, ..t[slot] })
    } else {
        t
    }
}

/// What the answer to a drain for a response comes to.
pub open spec fn reply_of(ev: HvEvent) -> Result<Seq<u8>> {
    match ev {
        HvEvent::Polled { result, response, .. } => match result {
            Err(e) => Err(e),
            Ok(_) => match response {
                Some(bytes) => Ok(bytes),
                None => Err(Error::Timeout),
            },
        },
        _ => Err(Error::Timeout),
    }
}

/// The messages that a drain routed.
pub open spec fn drained_by(ev: HvEvent) -> Seq<Seq<u8>> {
    match ev {
        HvEvent::Polled { messages, .. } => messages,
        _ => Seq::empty(),
    }
}

/// The messages that the drain at the end of `ev` routed.
pub open spec fn drained_in(ev: Seq<HvEvent>) -> Seq<Seq<u8>> {
    if ev.len() == 0 {
        Seq::empty()
    } else {
        drained_by(ev.last())
    }
}

/// The table after a request for `key` that was answered, or not, by the
/// drain `ev`.
pub open spec fn table_after_drain(
    t: Seq<SlotState>,
    key: CompletionKey,
    ev: HvEvent,
) -> Seq<SlotState> {
    message::table_after(message::registered(t, key), drained_by(ev))
}

/// The event is a post of `payload` to `connection_id`.
pub open spec fn posts(ev: HvEvent, connection_id: u32, payload: Seq<u8>) -> bool {
    ev matches HvEvent::Posted { result, .. } && ev.is_post(connection_id, payload, result)
}

/// How a post ended.
pub open spec fn post_result(ev: HvEvent) -> Result<()> {
    match ev {
        HvEvent::Posted { result, .. } => result,
        _ => Ok(()),
    }
}

/// The event is a drain that waited for `key`.
pub open spec fn polls(ev: HvEvent, key: CompletionKey) -> bool {
    ev matches HvEvent::Polled { key: k, .. } && k == key
}

/// The request that the ladder makes for `version`.
pub open spec fn ladder_request(version: Version, client_id: Guid) -> Seq<u8> {
    contact_bytes(
        version,
        if version.number() >= Version::Copper.number() {
            Some(client_id)
        } else {
            None
        },
        FeatureFlags(0xf),
    )
}

/// Walking `ladder` made the events `ev`, brought the completion table
/// from the first state to the second, and ended in `r`: each version is
/// asked for once, in order, until one is accepted or something fails.
pub open spec fn negotiation(
    ladder: Seq<Version>,
    client_id: Guid,
    table: (Seq<SlotState>, Seq<SlotState>),
    ev: Seq<HvEvent>,
    r: Result<ConnectionState>,
) -> bool
    decreases ladder.len(),
{
    let key = CompletionKey::VersionResponse;
    if ladder.len() == 0 {
        &&& ev.len() == 0
        &&& table.1 == table.0
        &&& r == Err::<ConnectionState, Error>(Error::VersionMismatch)
    } else {
        let version = ladder[0];
        &&& ev.len() >= 1
        &&& posts(ev[0], initial_id(version), ladder_request(version, client_id))
        &&& match post_result(ev[0]) {
            Err(e) => {
                &&& ev.len() == 1
                &&& table.1 == message::registered(table.0, key)
                &&& r == Err::<ConnectionState, Error>(e)
            },
            Ok(_) => {
                let drained = table_after_drain(table.0, key, ev[1]);
                let answered = taken(drained, table.0.len() as int);
                &&& ev.len() >= 2
                &&& polls(ev[1], key)
                &&& match reply_of(ev[1]) {
                    Err(e) => {
                        &&& ev.len() == 2
                        &&& r == Err::<ConnectionState, Error>(e)
                        &&& table.1 == (if ev[1]->Polled_result is Ok {
                            answered
                        } else {
                            drained
                        })
                    },
                    Ok(bytes) => match version_response(bytes) {
                        Err(e) => {
                            &&& ev.len() == 2
                            &&& r == Err::<ConnectionState, Error>(e)
                            &&& table.1 == answered
                        },
                        Ok(parsed) => if parsed.version_supported {
                            &&& ev.len() == 2
                            &&& r == Ok::<ConnectionState, Error>(state_for(version, parsed))
                            &&& table.1 == answered
                        } else {
                            negotiation(
                                ladder.drop_first(),
                                client_id,
                                (answered, table.1),
                                ev.skip(2),
                                r,
                            )
                        },
                    },
                }
            },
        }
    }
}

/// Walk `ladder` in order, posting `InitiateContact` for each version
/// and waiting for a `VersionResponse`. Returns the first
/// [`ConnectionState`] the host accepts.
///
/// * `ctx`: carries the hypercall interface.
/// * `table`: completion table used to receive the response.
/// * `pump`: drains the message page (see [`MessagePump`]).
/// * `handler`: sees connect results that arrive meanwhile.
/// * `client_id`: advertised to the host as a `CLIENT_ID`. Passed only
///   for Copper (6.0+); older versions still send the legacy
///   [`InitiateContact`] struct.
///
/// Any offers that race negotiation are forwarded to a nested
/// [`OfferCollector`] and discarded (they belong to `RequestOffers`,
/// not `InitiateContact`).
pub fn negotiate_version<C: HypercallTrait, P: MessagePump, H: ConnectResultHandler>(
    ctx: &mut HvCtx<C>,
    table: &mut CompletionTable,
    pump: &mut P,
    handler: &mut Option<H>,
    client_id: Guid,
    ladder: &[Version],
) -> (r: Result<ConnectionState>)
    ensures
        old(ctx).ran_to(*final(ctx)),
        final(pump).source() == old(pump).source(),
        drains_from(old(pump).source(), old(ctx).log(), final(ctx).log()),
        hvsock::handler_after(
            *old(handler),
            routed_in(final(ctx).log().skip(old(ctx).log().len() as int)),
            *final(handler),
        ),
        old(ctx).log().is_prefix_of(final(ctx).log()),
        negotiation(
            ladder@,
            client_id,
            (old(table)@, final(table)@),
            final(ctx).log().skip(old(ctx).log().len() as int),
            r,
        ),
{
    let mut sink = HandlerSink { inner: OfferCollector::default(), handler: handler.take() };
    let ghost first = sink;
    let r = walk_ladder(ctx, table, pump, &mut sink, client_id, ladder);
    proof {
        hvsock::law_handler_sees(
            first,
            routed_in(ctx.log().skip(old(ctx).log().len() as int)),
            sink,
        );
    }
    *handler = sink.handler;
    r
}

/// One step of the ladder: ask for `version` and take the answer.
fn ask_version<C: HypercallTrait, P: MessagePump, S: MessageSink, H: ConnectResultHandler>(
    ctx: &mut HvCtx<C>,
    table: &mut CompletionTable,
    pump: &mut P,
    sink: &mut HandlerSink<S, H>,
    client_id: Guid,
    version: Version,
) -> (r: Result<Vec<u8>>)
    ensures
        old(ctx).ran_to(*final(ctx)),
        final(pump).source() == old(pump).source(),
        drains_from(old(pump).source(), old(ctx).log(), final(ctx).log()),
        message::sink_after(
            *old(sink),
            routed_in(final(ctx).log().skip(old(ctx).log().len() as int)),
            *final(sink),
        ),
        old(ctx).log().is_prefix_of(final(ctx).log()),
        ({
            let key = CompletionKey::VersionResponse;
            let ev = final(ctx).log().skip(old(ctx).log().len() as int);
            &&& ev.len() >= 1
            &&& posts(ev[0], initial_id(version), ladder_request(version, client_id))
            &&& match post_result(ev[0]) {
                Err(e) => {
                    &&& ev.len() == 1
                    &&& final(table)@ == message::registered(old(table)@, key)
                    &&& r matches Err(x)
                    &&& x == e
                },
                Ok(_) => {
                    let drained = table_after_drain(old(table)@, key, ev[1]);
                    &&& ev.len() == 2
                    &&& polls(ev[1], key)
                    &&& final(table)@ == (if ev[1]->Polled_result is Ok {
                        taken(drained, old(table)@.len() as int)
                    } else {
                        drained
                    })
                    &&& match r {
                        Ok(v) => reply_of(ev[1]) == Ok::<Seq<u8>, Error>(v@),
                        Err(e) => reply_of(ev[1]) == Err::<Seq<u8>, Error>(e),
                    }
                },
            }
        }),
{
    let ghost before = ctx.log();
    let handle = table.register(CompletionKey::VersionResponse);
    let client = if version.at_least(Version::Copper) {
        Some(client_id)
    } else {
        None
    };
    let payload = encode_initiate_contact(version, client, FeatureFlags::supported());
    let posted = post_message(ctx, initial_connection_id(version), payload.as_slice());
    let ghost mid = ctx.log();
    proof {
        reveal_with_fuel(routed_in, 3);
        assert(mid.skip(before.len() as int)[0] == mid.last());
        assert(routed_in(mid.skip(before.len() as int)) =~= Seq::<Seq<u8>>::empty());
        assert(before.is_prefix_of(mid)) by {
            assert(mid.take(before.len() as int) =~= mid.drop_last());
        }
    }
    match posted {
        Ok(()) => {},
        Err(e) => return Err(e),
    }
    let polled = poll_for(ctx, table, pump, sink, &handle);
    proof {
        let end = ctx.log();
        assert(end.drop_last() == mid);
        assert(end[mid.len() as int] == end.last());
        assert forall|i: int| 0 <= i < mid.len() implies #[trigger] mid[i] == end[i] by {
            assert(end.drop_last()[i] == end[i]);
        }
        assert forall|i: int| 0 <= i < before.len() implies #[trigger] before[i] == end[i] by {
            assert(mid.drop_last()[i] == mid[i]);
        }
        assert(before.is_prefix_of(end));
        let ev = end.skip(before.len() as int);
        assert(ev[0] == mid.last());
        assert(ev[1] == end.last());
        assert(routed_in(ev) =~= drained_by(end.last()));
    }
    match polled {
        Ok(()) => {},
        Err(e) => return Err(e),
    }
    match handle.take_response(table) {
        Some(bytes) => Ok(bytes),
        None => Err(Error::Timeout),
    }
}

fn walk_ladder<C: HypercallTrait, P: MessagePump, S: MessageSink, H: ConnectResultHandler>(
    ctx: &mut HvCtx<C>,
    table: &mut CompletionTable,
    pump: &mut P,
    sink: &mut HandlerSink<S, H>,
    client_id: Guid,
    ladder: &[Version],
) -> (r: Result<ConnectionState>)
    ensures
        old(ctx).ran_to(*final(ctx)),
        final(pump).source() == old(pump).source(),
        drains_from(old(pump).source(), old(ctx).log(), final(ctx).log()),
        message::sink_after(
            *old(sink),
            routed_in(final(ctx).log().skip(old(ctx).log().len() as int)),
            *final(sink),
        ),
        old(ctx).log().is_prefix_of(final(ctx).log()),
        negotiation(
            ladder@,
            client_id,
            (old(table)@, final(table)@),
            final(ctx).log().skip(old(ctx).log().len() as int),
            r,
        ),
{
    let ghost before = ctx.log();
    let ghost t0 = table@;
    let ghost s0 = *sink;
    let ghost source = pump.source();
    let mut i: usize = 0;
    proof {
        assert(ladder@.skip(0) =~= ladder@);
        assert(ctx.log().skip(before.len() as int) =~= Seq::<HvEvent>::empty());
        assert forall|rest: Seq<HvEvent>| #[trigger]
            (Seq::<HvEvent>::empty() + rest) == rest by {
            assert(Seq::<HvEvent>::empty() + rest =~= rest);
        }
    }
    while i < ladder.len()
        invariant
            i <= ladder@.len(),
            old(ctx).ran_to(*ctx),
            before.is_prefix_of(ctx.log()),
            source == old(pump).source(),
            pump.source() == source,
            drains_from(source, before, ctx.log()),
            s0 == *old(sink),
            message::sink_after(s0, routed_in(ctx.log().skip(before.len() as int)), *sink),
            forall|rest: Seq<HvEvent>, r: Result<ConnectionState>, tf: Seq<SlotState>| #[trigger]
                negotiation(ladder@.skip(i as int), client_id, (table@, tf), rest, r)
                    ==> negotiation(
                    ladder@,
                    client_id,
                    (t0, tf),
                    ctx.log().skip(before.len() as int) + rest,
                    r,
                ),
            t0 == old(table)@,
            before == old(ctx).log(),
        decreases ladder@.len() - i,
    {
        let ghost log1 = ctx.log();
        let ghost t1 = table@;
        let ghost s1 = *sink;
        let ghost todo = ladder@.skip(i as int);
        let version = ladder[i];
        let answer = ask_version(ctx, table, pump, sink, client_id, version);
        let ghost ev = ctx.log().skip(log1.len() as int);
        proof {
            assert(todo[0] == version);
            assert(todo.drop_first() =~= ladder@.skip(i + 1));
            assert(ctx.log().skip(before.len() as int) =~= log1.skip(before.len() as int) + ev);
            assert(before.is_prefix_of(ctx.log()));
            lemma_drains_from(source, before, log1, ctx.log());
            lemma_routed_in(log1.skip(before.len() as int), ev);
            message::lemma_sink_after(
                s0,
                routed_in(log1.skip(before.len() as int)),
                s1,
                routed_in(ev),
                *sink,
            );
        }
        let parsed = match answer {
            Ok(bytes) => parse_version_response(bytes.as_slice()),
            Err(e) => {
                proof {
                    let r: Result<ConnectionState> = Err(e);
                    assert(negotiation(todo, client_id, (t1, table@), ev, r));
                }
                return Err(e);
            },
        };
        match parsed {
            Ok(parsed) => {
                if parsed.version_supported {
                    let state = build_connection_state(version, parsed);
                    proof {
                        let r: Result<ConnectionState> = Ok(state);
                        assert(negotiation(todo, client_id, (t1, table@), ev, r));
                    }
                    return Ok(state);
                }
            },
            Err(e) => {
                proof {
                    let r: Result<ConnectionState> = Err(e);
                    assert(negotiation(todo, client_id, (t1, table@), ev, r));
                }
                return Err(e);
            },
        }
        i += 1;
        proof {
            assert forall|rest: Seq<HvEvent>, r: Result<ConnectionState>, tf: Seq<SlotState>|
                #[trigger]
            negotiation(ladder@.skip(i as int), client_id, (table@, tf), rest, r)
                implies negotiation(
                ladder@,
                client_id,
                (t0, tf),
                ctx.log().skip(before.len() as int) + rest,
                r,
            ) by {
                assert((ev + rest).skip(2) =~= rest);
                assert((ev + rest)[0] == ev[0]);
                assert((ev + rest)[1] == ev[1]);
                assert(negotiation(todo, client_id, (t1, tf), ev + rest, r));
                assert(log1.skip(before.len() as int) + (ev + rest) =~= ctx.log().skip(
                    before.len() as int,
                ) + rest);
            }
        }
    }
    proof {
        let r: Result<ConnectionState> = Err(Error::VersionMismatch);
        assert(ladder@.skip(i as int) =~= Seq::<Version>::empty());
        assert(negotiation(
            ladder@.skip(i as int),
            client_id,
            (table@, table@),
            Seq::<HvEvent>::empty(),
            r,
        ));
        assert(ctx.log().skip(before.len() as int) + Seq::<HvEvent>::empty() =~= ctx.log().skip(
            before.len() as int,
        ));
    }
    Err(Error::VersionMismatch)
}

/// Law: a negotiation that succeeds ends at a version of the ladder, and
/// asks for no version behind it.
pub proof fn law_negotiated_from_ladder(
    ladder: Seq<Version>,
    client_id: Guid,
    table: (Seq<SlotState>, Seq<SlotState>),
    ev: Seq<HvEvent>,
    state: ConnectionState,
)
    requires
        negotiation(ladder, client_id, table, ev, Ok(state)),
    ensures
        ev.len() % 2 == 0,
        2 <= ev.len() <= 2 * ladder.len(),
        state.selected_version == ladder[ev.len() / 2 - 1],
        reply_of(ev.last()) matches Ok(bytes) && version_response(bytes) matches Ok(p)
            && p.version_supported && state == state_for(state.selected_version, p),
    decreases ladder.len(),
{
    if ladder.len() > 0 && reply_of(ev[1]) is Ok {
        let bytes = reply_of(ev[1])->Ok_0;
        match version_response(bytes) {
            Ok(p) => {
                if !p.version_supported {
                    let answered = taken(
                        table_after_drain(table.0, CompletionKey::VersionResponse, ev[1]),
                        table.0.len() as int,
                    );
                    law_negotiated_from_ladder(
                        ladder.drop_first(),
                        client_id,
                        (answered, table.1),
                        ev.skip(2),
                        state,
                    );
                    assert(ev.skip(2).last() == ev.last());
                }
            },
            Err(_) => {},
        }
    }
}

// ---------------------------------------------------------------------------
// Request and reply
// ---------------------------------------------------------------------------
/// The event is a drain for `key` that brought the table from the first
/// state to the second and, if it succeeded, took the response out of
/// `slot`.
pub open spec fn awaited(
    ev: HvEvent,
    key: CompletionKey,
    slot: int,
    table: (Seq<SlotState>, Seq<SlotState>),
) -> bool {
    let drained = message::table_after(table.0, drained_by(ev));
    &&& polls(ev, key)
    &&& table.1 == (if ev->Polled_result is Ok {
        taken(drained, slot)
    } else {
        drained
    })
    &&& ev->Polled_result is Ok ==> 0 <= slot < drained.len() && drained[slot].completed
        && ev->Polled_response == drained[slot].response
}

/// Drain until `handle` is filled and take the response.
pub(crate) fn await_response<C: HypercallTrait, P: MessagePump, S: MessageSink, H: ConnectResultHandler>(
    ctx: &mut HvCtx<C>,
    table: &mut CompletionTable,
    pump: &mut P,
    sink: &mut HandlerSink<S, H>,
    handle: &CompletionHandle,
) -> (r: Result<Vec<u8>>)
    ensures
        old(ctx).ran_to(*final(ctx)),
        final(pump).source() == old(pump).source(),
        drains_from(old(pump).source(), old(ctx).log(), final(ctx).log()),
        message::sink_after(
            *old(sink),
            drained_in(final(ctx).log().skip(old(ctx).log().len() as int)),
            *final(sink),
        ),
        hypercalls::one_more(old(ctx).log(), final(ctx).log()),
        awaited(
            final(ctx).log().last(),
            handle.for_key(),
            handle.slot(),
            (old(table)@, final(table)@),
        ),
        match r {
            Ok(v) => reply_of(final(ctx).log().last()) == Ok::<Seq<u8>, Error>(v@),
            Err(e) => reply_of(final(ctx).log().last()) == Err::<Seq<u8>, Error>(e),
        },
{
    match poll_for(ctx, table, pump, sink, handle) {
        Ok(()) => {},
        Err(e) => return Err(e),
    }
    match handle.take_response(table) {
        Some(bytes) => Ok(bytes),
        None => Err(Error::Timeout),
    }
}

/// `payload` was posted to `connection_id` and, if that succeeded, the
/// message page drained until the completion for `key` arrived: `ev` is
/// what happened and `r` how it ended.
pub open spec fn exchange(
    connection_id: u32,
    payload: Seq<u8>,
    key: CompletionKey,
    table: (Seq<SlotState>, Seq<SlotState>),
    ev: Seq<HvEvent>,
    r: Result<()>,
) -> bool {
    &&& ev.len() >= 1
    &&& posts(ev[0], connection_id, payload)
    &&& match post_result(ev[0]) {
        Err(e) => {
            &&& ev.len() == 1
            &&& r == Err::<(), Error>(e)
            &&& table.1 == message::registered(table.0, key)
        },
        Ok(_) => {
            &&& ev.len() == 2
            &&& polls(ev[1], key)
            &&& r == ev[1]->Polled_result
            &&& table.1 == table_after_drain(table.0, key, ev[1])
        },
    }
}

/// Register for `key`, post `payload`, and drain until the completion is
/// there.
pub(crate) fn exchange_message<C: HypercallTrait, P: MessagePump, S: MessageSink, H: ConnectResultHandler>(
    ctx: &mut HvCtx<C>,
    table: &mut CompletionTable,
    pump: &mut P,
    sink: &mut HandlerSink<S, H>,
    connection_id: u32,
    key: CompletionKey,
    payload: &[u8],
) -> (r: Result<()>)
    ensures
        old(ctx).ran_to(*final(ctx)),
        final(pump).source() == old(pump).source(),
        drains_from(old(pump).source(), old(ctx).log(), final(ctx).log()),
        message::sink_after(
            *old(sink),
            drained_in(final(ctx).log().skip(old(ctx).log().len() as int)),
            *final(sink),
        ),
        old(ctx).log().is_prefix_of(final(ctx).log()),
        exchange(
            connection_id,
            payload@,
            key,
            (old(table)@, final(table)@),
            final(ctx).log().skip(old(ctx).log().len() as int),
            r,
        ),
        r is Ok ==> old(table)@.len() < final(table)@.len(),
        r is Ok ==> final(table)@[old(table)@.len() as int].completed,
{
    let ghost before = ctx.log();
    let handle = table.register(key);
    let posted = post_message(ctx, connection_id, payload);
    let ghost mid = ctx.log();
    proof {
        lemma_one_more(before, mid);
    }
    match posted {
        Ok(()) => {},
        Err(e) => return Err(e),
    }
    let polled = poll_for(ctx, table, pump, sink, &handle);
    proof {
        lemma_two_more(before, mid, ctx.log());
    }
    polled
}

/// What a request that made the events `ev` was answered.
pub open spec fn answer_in(ev: Seq<HvEvent>) -> Result<Seq<u8>> {
    match post_result(ev[0]) {
        Err(e) => Err(e),
        Ok(_) => reply_of(ev[1]),
    }
}

/// `payload` was posted to `connection_id` and, if that succeeded, the
/// reply for `key` awaited: `ev` is what happened.
pub open spec fn asked(
    connection_id: u32,
    payload: Seq<u8>,
    key: CompletionKey,
    table: (Seq<SlotState>, Seq<SlotState>),
    ev: Seq<HvEvent>,
) -> bool {
    let waiting = message::registered(table.0, key);
    &&& ev.len() >= 1
    &&& posts(ev[0], connection_id, payload)
    &&& match post_result(ev[0]) {
        Err(e) => {
            &&& ev.len() == 1
            &&& table.1 == waiting
        },
        Ok(_) => {
            &&& ev.len() == 2
            &&& awaited(ev[1], key, table.0.len() as int, (waiting, table.1))
        },
    }
}

/// Register for `key`, post `payload`, and await the reply.
pub(crate) fn request_reply<C: HypercallTrait, P: MessagePump, S: MessageSink, H: ConnectResultHandler>(
    ctx: &mut HvCtx<C>,
    table: &mut CompletionTable,
    pump: &mut P,
    sink: &mut HandlerSink<S, H>,
    connection_id: u32,
    key: CompletionKey,
    payload: &[u8],
) -> (r: Result<Vec<u8>>)
    ensures
        old(ctx).ran_to(*final(ctx)),
        final(pump).source() == old(pump).source(),
        drains_from(old(pump).source(), old(ctx).log(), final(ctx).log()),
        message::sink_after(
            *old(sink),
            drained_in(final(ctx).log().skip(old(ctx).log().len() as int)),
            *final(sink),
        ),
        old(ctx).log().is_prefix_of(final(ctx).log()),
        asked(
            connection_id,
            payload@,
            key,
            (old(table)@, final(table)@),
            final(ctx).log().skip(old(ctx).log().len() as int),
        ),
        match r {
            Ok(v) => answer_in(final(ctx).log().skip(old(ctx).log().len() as int)) == Ok::<
                Seq<u8>,
                Error,
            >(v@),
            Err(e) => answer_in(final(ctx).log().skip(old(ctx).log().len() as int)) == Err::<
                Seq<u8>,
                Error,
            >(e),
        },
{
    let ghost before = ctx.log();
    let handle = table.register(key);
    let posted = post_message(ctx, connection_id, payload);
    let ghost mid = ctx.log();
    proof {
        lemma_one_more(before, mid);
    }
    match posted {
        Ok(()) => {},
        Err(e) => return Err(e),
    }
    let reply = await_response(ctx, table, pump, sink, &handle);
    proof {
        lemma_two_more(before, mid, ctx.log());
    }
    reply
}

/// One event more, seen from the front.
pub proof fn lemma_one_more(a: Seq<HvEvent>, b: Seq<HvEvent>)
    requires
        hypercalls::one_more(a, b),
    ensures
        a.is_prefix_of(b),
        b.skip(a.len() as int).len() == 1,
        b.skip(a.len() as int)[0] == b.last(),
{
    assert(b.take(a.len() as int) =~= b.drop_last());
    assert forall|i: int| 0 <= i < a.len() implies a[i] == b[i] by {
        assert(b.drop_last()[i] == b[i]);
    }
}

/// Two events more, seen from the front.
pub proof fn lemma_two_more(a: Seq<HvEvent>, b: Seq<HvEvent>, c: Seq<HvEvent>)
    requires
        hypercalls::one_more(a, b),
        hypercalls::one_more(b, c),
    ensures
        a.is_prefix_of(c),
        c.skip(a.len() as int).len() == 2,
        c.skip(a.len() as int)[0] == b.last(),
        c.skip(a.len() as int)[1] == c.last(),
{
    lemma_one_more(a, b);
    lemma_one_more(b, c);
    assert forall|i: int| 0 <= i < b.len() implies b[i] == c[i] by {
        assert(c.drop_last()[i] == c[i]);
    }
    assert forall|i: int| 0 <= i < a.len() implies a[i] == c[i] by {
        assert(a[i] == b[i]);
    }
}

/// Post `RequestOffers` and drain the message page until
/// `AllOffersDelivered` arrives, forwarding every `OfferChannel` (and
/// any race-time `RescindChannelOffer`) to `sink`.
pub fn request_offers_with<C: HypercallTrait, P: MessagePump, S: MessageSink, H: ConnectResultHandler>(
    ctx: &mut HvCtx<C>,
    table: &mut CompletionTable,
    pump: &mut P,
    sink: &mut HandlerSink<S, H>,
    connection_id: u32,
) -> (r: Result<()>)
    ensures
        old(ctx).ran_to(*final(ctx)),
        final(pump).source() == old(pump).source(),
        drains_from(old(pump).source(), old(ctx).log(), final(ctx).log()),
        message::sink_after(
            *old(sink),
            drained_in(final(ctx).log().skip(old(ctx).log().len() as int)),
            *final(sink),
        ),
        old(ctx).log().is_prefix_of(final(ctx).log()),
        exchange(
            connection_id,
            protocol::message_bytes(RequestOffers),
            CompletionKey::AllOffersDelivered,
            (old(table)@, final(table)@),
            final(ctx).log().skip(old(ctx).log().len() as int),
            r,
        ),
{
    let payload = encode_to_vec(&RequestOffers);
    exchange_message(
        ctx,
        table,
        pump,
        sink,
        connection_id,
        CompletionKey::AllOffersDelivered,
        payload.as_slice(),
    )
}

/// Send `Unload` and wait for `UnloadComplete`; the connection is then
/// gone.
pub fn unload_with<C: HypercallTrait, P: MessagePump, S: MessageSink, H: ConnectResultHandler>(
    ctx: &mut HvCtx<C>,
    connection: &mut Option<ConnectionState>,
    table: &mut CompletionTable,
    pump: &mut P,
    sink: &mut HandlerSink<S, H>,
) -> (r: Result<()>)
    ensures
        old(ctx).ran_to(*final(ctx)),
        final(pump).source() == old(pump).source(),
        drains_from(old(pump).source(), old(ctx).log(), final(ctx).log()),
        message::sink_after(
            *old(sink),
            drained_in(final(ctx).log().skip(old(ctx).log().len() as int)),
            *final(sink),
        ),
        old(ctx).log().is_prefix_of(final(ctx).log()),
        match *old(connection) {
            None => {
                &&& r == Err::<(), Error>(Error::VersionMismatch)
                &&& final(ctx).log() == old(ctx).log()
                &&& final(table)@ == old(table)@
            },
            Some(state) => exchange(
                state.post_message_connection_id,
                protocol::message_bytes(Unload),
                CompletionKey::UnloadComplete,
                (old(table)@, final(table)@),
                final(ctx).log().skip(old(ctx).log().len() as int),
                r,
            ),
        },
        *final(connection) == (if r is Ok {
            None
        } else {
            *old(connection)
        }),
{
    let state = match *connection {
        Some(state) => state,
        None => return Err(Error::VersionMismatch),
    };
    let payload = encode_to_vec(&Unload);
    let r = exchange_message(
        ctx,
        table,
        pump,
        sink,
        state.post_message_connection_id,
        CompletionKey::UnloadComplete,
        payload.as_slice(),
    );
    if r.is_ok() {
        *connection = None;
    }
    r
}

// ---------------------------------------------------------------------------
// Entry points over the guest's state
// ---------------------------------------------------------------------------
/// `g` is the client id of this guest.
pub open spec fn is_client_id(g: Guid) -> bool {
    &&& g.data1 == 0x6f70_746d
    &&& g.data2 == 0x6b5f
    &&& g.data3 == 0x696e
    &&& g.data4@ == seq![0x76u8, 0x61, 0x72, 0x69, 0x61, 0x6e, 0x74, 0]
}

/// A default client id advertised by the guest ("opentmk-invariant").
/// The exact GUID is arbitrary but stable: the host doesn't interpret
/// it beyond echoing it back in diagnostics.
pub fn client_id() -> (r: Guid)
    ensures
        is_client_id(r),
{
    Guid {
        data1: 0x6f70_746d,
        data2: 0x6b5f,
        data3: 0x696e,
        data4: [0x76, 0x61, 0x72, 0x69, 0x61, 0x6e, 0x74, 0],
    }
}

/// The negotiated connection, if there is one.
pub fn connection<H: ConnectResultHandler>(state: &VmbusState<H>) -> (r: Option<ConnectionState>)
    ensures
        r == state.connection,
{
    state.connection
}

/// The parts of the state that only their own entry points change.
pub open spec fn same_setup<H: ConnectResultHandler>(a: VmbusState<H>, b: VmbusState<H>) -> bool {
    &&& b.synic == a.synic
    &&& b.gpadl_ids.next == a.gpadl_ids.next
    &&& b.open_ids.next == a.open_ids.next
}

/// Negotiating over the guest's state went like this.
pub open spec fn initiated<H: ConnectResultHandler>(
    state: (VmbusState<H>, VmbusState<H>),
    log: (Seq<HvEvent>, Seq<HvEvent>),
    r: Result<()>,
) -> bool {
    &&& log.0.is_prefix_of(log.1)
    &&& drains_simp(state.0.synic, log)
    &&& hvsock::handler_after(
        state.0.handler,
        routed_in(log.1.skip(log.0.len() as int)),
        state.1.handler,
    )
    &&& same_setup(state.0, state.1)
    &&& match state.0.synic {
        None => {
            &&& r == Err::<(), Error>(Error::VersionMismatch)
            &&& log.1 == log.0
            &&& state.1 == state.0
        },
        Some(_) => exists|client: Guid|
            #[trigger] is_client_id(client) && negotiation(
                Version::NEGOTIATION_LADDER@,
                client,
                (state.0.table@, state.1.table@),
                log.1.skip(log.0.len() as int),
                match r {
                    Ok(_) => Ok(state.1.connection->0),
                    Err(e) => Err(e),
                },
            ),
    }
    &&& match r {
        Ok(_) => state.1.connection is Some,
        Err(_) => state.1.connection == state.0.connection,
    }
}

/// Full negotiation using a SIMP-page-backed pump.
///
/// Requires [`crate::synic::init_synic`] to have already programmed
/// the SIMP page.
pub fn initiate<C: HypercallTrait, H: ConnectResultHandler>(
    ctx: &mut HvCtx<C>,
    state: &mut VmbusState<H>,
) -> (r: Result<()>)
    ensures
        old(ctx).ran_to(*final(ctx)),
        initiated((*old(state), *final(state)), (old(ctx).log(), final(ctx).log()), r),
{
    let pages = match synic_pages(&state.synic) {
        Some(pages) => pages,
        None => return Err(Error::VersionMismatch),
    };
    let mut pump = SimpPump::new(pages.simp_gpa);
    let ladder = Version::NEGOTIATION_LADDER;
    let negotiated = negotiate_version(
        ctx,
        &mut state.table,
        &mut pump,
        &mut state.handler,
        client_id(),
        ladder.as_slice(),
    );
    match negotiated {
        Ok(agreed) => {
            state.connection = Some(agreed);
            Ok(())
        },
        Err(e) => Err(e),
    }
}

/// Asking for the offers over the guest's state went like this.
pub open spec fn offers_asked<H: ConnectResultHandler>(
    state: (VmbusState<H>, VmbusState<H>),
    log: (Seq<HvEvent>, Seq<HvEvent>),
    r: Result<Seq<OfferChannel>>,
) -> bool {
    &&& log.0.is_prefix_of(log.1)
    &&& drains_simp(state.0.synic, log)
    &&& hvsock::handler_after(
        state.0.handler,
        drained_in(log.1.skip(log.0.len() as int)),
        state.1.handler,
    )
    &&& same_setup(state.0, state.1)
    &&& state.1.connection == state.0.connection
    &&& if state.0.synic is None || state.0.connection is None {
        &&& r == Err::<Seq<OfferChannel>, Error>(Error::VersionMismatch)
        &&& log.1 == log.0
        &&& state.1 == state.0
    } else {
        let ev = log.1.skip(log.0.len() as int);
        &&& exchange(
            state.0.connection->0.post_message_connection_id,
            protocol::message_bytes(RequestOffers),
            CompletionKey::AllOffersDelivered,
            (state.0.table@, state.1.table@),
            ev,
            match r {
                Ok(_) => Ok(()),
                Err(e) => Err(e),
            },
        )
        &&& r matches Ok(offers) ==> offers == offers_in(drained_in(ev))
    }
}

/// The offers that came back, if any did.
pub open spec fn offers_got(r: Result<Vec<OfferChannel>>) -> Result<Seq<OfferChannel>> {
    match r {
        Ok(offers) => Ok(offers@),
        Err(e) => Err(e),
    }
}

/// Post `RequestOffers`, drain until `AllOffersDelivered`, and collect
/// offers. They come in the order in which the host delivered them.
pub fn request_offers<C: HypercallTrait, H: ConnectResultHandler>(
    ctx: &mut HvCtx<C>,
    state: &mut VmbusState<H>,
) -> (r: Result<Vec<OfferChannel>>)
    ensures
        old(ctx).ran_to(*final(ctx)),
        offers_asked(
            (*old(state), *final(state)),
            (old(ctx).log(), final(ctx).log()),
            offers_got(r),
        ),
{
    let pages = match synic_pages(&state.synic) {
        Some(pages) => pages,
        None => return Err(Error::VersionMismatch),
    };
    let agreed = match state.connection {
        Some(agreed) => agreed,
        None => return Err(Error::VersionMismatch),
    };
    let mut pump = SimpPump::new(pages.simp_gpa);
    let mut sink = HandlerSink { inner: OfferCollector::default(), handler: state.handler.take() };
    let ghost first = sink;
    let r = request_offers_with(
        ctx,
        &mut state.table,
        &mut pump,
        &mut sink,
        agreed.post_message_connection_id,
    );
    proof {
        let ev = ctx.log().skip(old(ctx).log().len() as int);
        hvsock::law_inner_sink(first, drained_in(ev), sink);
        hvsock::law_handler_sees(first, drained_in(ev), sink);
        law_collector_keeps_order(first.inner, drained_in(ev), sink.inner);
        assert(sink.inner.offers@ =~= offers_in(drained_in(ev)));
        assert(r is Ok ==> r == Ok::<(), Error>(r->Ok_0));
        assert(r is Ok ==> r->Ok_0 == ());
    }
    state.handler = sink.handler;
    match r {
        Ok(()) => Ok(sink.inner.offers),
        Err(e) => Err(e),
    }
}

/// Unloading over the guest's state went like this.
pub open spec fn unloaded<H: ConnectResultHandler>(
    state: (VmbusState<H>, VmbusState<H>),
    log: (Seq<HvEvent>, Seq<HvEvent>),
    r: Result<()>,
) -> bool {
    &&& log.0.is_prefix_of(log.1)
    &&& drains_simp(state.0.synic, log)
    &&& hvsock::handler_after(
        state.0.handler,
        drained_in(log.1.skip(log.0.len() as int)),
        state.1.handler,
    )
    &&& same_setup(state.0, state.1)
    &&& if state.0.synic is None || state.0.connection is None {
        &&& r == Err::<(), Error>(Error::VersionMismatch)
        &&& log.1 == log.0
        &&& state.1.table@ == state.0.table@
    } else {
        exchange(
            state.0.connection->0.post_message_connection_id,
            protocol::message_bytes(Unload),
            CompletionKey::UnloadComplete,
            (state.0.table@, state.1.table@),
            log.1.skip(log.0.len() as int),
            r,
        )
    }
    &&& state.1.connection == if r is Ok {
        None
    } else {
        state.0.connection
    }
}

/// Send `Unload` over a SIMP-page-backed pump and wait for
/// `UnloadComplete`.
pub fn unload<C: HypercallTrait, H: ConnectResultHandler>(
    ctx: &mut HvCtx<C>,
    state: &mut VmbusState<H>,
) -> (r: Result<()>)
    ensures
        old(ctx).ran_to(*final(ctx)),
        unloaded((*old(state), *final(state)), (old(ctx).log(), final(ctx).log()), r),
{
    let pages = match synic_pages(&state.synic) {
        Some(pages) => pages,
        None => return Err(Error::VersionMismatch),
    };
    let mut pump = SimpPump::new(pages.simp_gpa);
    let mut sink = HandlerSink { inner: OfferCollector::default(), handler: state.handler.take() };
    let ghost first = sink;
    let r = unload_with(ctx, &mut state.connection, &mut state.table, &mut pump, &mut sink);
    proof {
        let ev = ctx.log().skip(old(ctx).log().len() as int);
        hvsock::law_handler_sees(first, drained_in(ev), sink);
    }
    state.handler = sink.handler;
    r
}

} // verus!
