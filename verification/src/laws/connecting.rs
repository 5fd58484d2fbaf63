//! Connecting to the host: the version ladder, the offers and the goodbye.
use crate::connection;
use crate::connection::build_connection_state;
use crate::connection::encode_initiate_contact;
use crate::connection::initial_connection_id;
use crate::connection::negotiate_version;
use crate::connection::parse_version_response;
use crate::connection::request_offers_with;
use crate::connection::unload_with;
use crate::connection::ConnectionState;
use crate::connection::MessagePump;
use crate::connection::ParsedVersionResponse;
use crate::error::Error;
use crate::error::Result;
use crate::hvsock::ConnectResultHandler;
use crate::hvsock::HandlerSink;
use crate::hypercalls::HvCtx;
use crate::hypercalls::HvEvent;
use crate::hypercalls::HypercallTrait;
use crate::laws::decoding;
use crate::laws::layout;
use crate::laws::messages;
use crate::message::CompletionKey;
use crate::message::CompletionTable;
use crate::message::MessageSink;
use crate::message::SlotState;
use crate::protocol;
use crate::protocol::FeatureFlags;
use crate::protocol::Guid;
use crate::protocol::InitiateContact2;
use crate::protocol::OfferChannel;
use crate::protocol::RequestOffers;
use crate::protocol::TargetInfo;
use crate::protocol::Unload;
use crate::protocol::Version;
use crate::protocol::VersionResponse;
use crate::protocol::VersionResponse2;
use crate::protocol::VersionResponse3;
use crate::state::VmbusState;
use crate::wire;
use crate::wire::Wire;
use vstd::prelude::*;

verus! {

/// Law: the number of a version is its major number in the upper half and
/// its minor number in the lower, and versions compare as their numbers do.
pub proof fn law_version_numbers(v: Version, w: Version, r: u32, s: bool)
    requires
        call_ensures(Version::raw, (v,), r),
        call_ensures(Version::at_least, (v, w), s),
    ensures
        r == v.number(),
        s == (v.number() >= w.number()),
        match v {
            Version::V1 => r == 13,
            Version::Win7 => r == 1 * 0x1_0000 + 1,
            Version::Win8 => r == 2 * 0x1_0000 + 4,
            Version::Win8_1 => r == 3 * 0x1_0000,
            Version::Win10 => r == 4 * 0x1_0000,
            Version::Win10Rs3_0 => r == 4 * 0x1_0000 + 1,
            Version::Win10Rs3_1 => r == 5 * 0x1_0000,
            Version::Win10Rs4 => r == 5 * 0x1_0000 + 1,
            Version::Win10Rs5 => r == 5 * 0x1_0000 + 2,
            Version::Iron => r == 5 * 0x1_0000 + 3,
            Version::Copper => r == 6 * 0x1_0000,
        },
{
}

/// Law: the ladder asks for each supported version once, newest first.
pub proof fn law_ladder()
    ensures
        Version::NEGOTIATION_LADDER@.map_values(|v: Version| v.number() as int) == seq![
            0x6_0000int,
            0x5_0003,
            0x5_0002,
            0x5_0001,
            0x5_0000,
            0x4_0000,
            0x3_0000,
            0x2_0004,
        ],
{
}

/// Law: before a connection id is agreed on, messages go to connection 1 for
/// versions below 5.0 and to connection 4 from 5.0 on.
pub proof fn law_initial_connection(v: Version, r: u32)
    requires
        call_ensures(initial_connection_id, (v,), r),
    ensures
        v.number() < 0x5_0000 ==> r == 1,
        v.number() >= 0x5_0000 ==> r == 4,
{
}

/// The bytes of a request for a version: the message type, the version, and
/// from 5.0 on the target: interrupt source 2, trust level 0 and the feature
/// flags. All else is zero, but for a client id at the end.
proof fn lemma_contact(v: Version, id: Option<Guid>, f: FeatureFlags, p: Seq<u8>)
    requires
        p == connection::contact_bytes(v, id, f),
    ensures
        p.len() == (if id is Some {
            56int
        } else {
            40
        }),
        layout::word32(p, 0) == 14,
        layout::word32(p, 4) == 0,
        layout::word32(p, 8) == v.number(),
        layout::word32(p, 12) == 0,
        v.number() >= 0x5_0000 ==> {
            &&& p[16] == 2
            &&& p[17] == 0
            &&& p[18] == 0
            &&& p[19] == 0
            &&& layout::word32(p, 20) == f.0
        },
        v.number() < 0x5_0000 ==> layout::word64(p, 16) == 0,
        layout::word64(p, 24) == 0,
        layout::word64(p, 32) == 0,
        id matches Some(g) ==> {
            &&& layout::word32(p, 40) == g.data1
            &&& layout::word16(p, 44) == g.data2
            &&& layout::word16(p, 46) == g.data3
            &&& forall|i: int| 0 <= i < 8 ==> #[trigger] g.data4@[i] == p[48 + i]
        },
{
    let base = connection::contact_for(v, f);
    base.lemma_wire_len();
    match id {
        Some(g) => {
            let m = InitiateContact2 { initiate_contact: base, client_id: g };
            m.lemma_wire_len();
            messages::lemma_message(m, p);
            layout::law_initiate_contact2_layout(m, p, 8);
        },
        None => {
            messages::lemma_message(base, p);
            layout::law_initiate_contact_layout(base, p, 8);
        },
    }
    let info = base.interrupt_page_or_target_info;
    assert(layout::word64(p, 16) == info);
    assert(layout::word64(p, 16) == layout::word32(p, 16) + 0x1_0000_0000 * layout::word32(p, 20));
}

/// Law: a request for version 5.0 or newer names interrupt source 2 and
/// trust level 0, and carries the feature flags it was given; a request for
/// an older version leaves those bytes zero. The version stands in bytes 8 to
/// 12, and a client id, where there is one, at the end.
pub proof fn law_contact(v: Version, id: Option<Guid>, f: FeatureFlags, r: Vec<u8>)
    requires
        call_ensures(encode_initiate_contact, (v, id, f), r),
    ensures
        r@.len() == (if id is Some {
            56int
        } else {
            40
        }),
        layout::word32(r@, 0) == 14,
        layout::word32(r@, 4) == 0,
        layout::word32(r@, 8) == v.number(),
        layout::word32(r@, 12) == 0,
        v.number() >= 0x5_0000 ==> {
            &&& r@[16] == 2
            &&& r@[17] == 0
            &&& r@[18] == 0
            &&& r@[19] == 0
            &&& layout::word32(r@, 20) == f.0
        },
        v.number() < 0x5_0000 ==> layout::word64(r@, 16) == 0,
        layout::word64(r@, 24) == 0,
        layout::word64(r@, 32) == 0,
        id matches Some(g) ==> {
            &&& layout::word32(r@, 40) == g.data1
            &&& layout::word16(r@, 44) == g.data2
            &&& layout::word16(r@, 46) == g.data3
            &&& forall|i: int| 0 <= i < 8 ==> #[trigger] g.data4@[i] == r@[48 + i]
        },
{
    lemma_contact(v, id, f, r@);
}

/// Law: bytes 8 to 16 of the body of a request, read as a [`TargetInfo`],
/// name interrupt source 2, trust level 0 and the feature flags that the
/// request was given, for every version from 5.0 on.
pub proof fn law_contact_target(
    v: Version,
    id: Option<Guid>,
    f: FeatureFlags,
    r: Vec<u8>,
    info: TargetInfo,
    sint: u8,
    vtl: u8,
    flags: u32,
)
    requires
        call_ensures(encode_initiate_contact, (v, id, f), r),
        v.number() >= 0x5_0000,
        info.0 == layout::word64(r@, 16),
        call_ensures(TargetInfo::sint, (&info,), sint),
        call_ensures(TargetInfo::vtl, (&info,), vtl),
        call_ensures(TargetInfo::feature_flags, (&info,), flags),
    ensures
        sint == 2,
        vtl == 0,
        flags == f.0,
{
    lemma_contact(v, id, f, r@);
}

/// What an answer to a request for a version says.
proof fn lemma_version_response(b: Seq<u8>)
    ensures
        connection::version_response(b) is Ok <==> b.len() >= 16 && layout::word32(b, 0) == 15,
        connection::version_response(b) matches Ok(p) ==> {
            &&& p.version_supported == (b[8] != 0)
            &&& p.selected_version_or_connection_id == layout::word32(b, 12)
            &&& p.supported_features.0 == (if b.len() >= 20 {
                layout::word32(b, 16)
            } else {
                0
            })
            &&& p.parent_to_child_monitor_page_gpa == (if b.len() >= 40 {
                layout::word64(b, 24)
            } else {
                0
            })
            &&& p.child_to_parent_monitor_page_gpa == (if b.len() >= 40 {
                layout::word64(b, 32)
            } else {
                0
            })
        },
{
    messages::lemma_parsed::<VersionResponse>(b);
    if b.len() >= 16 && layout::word32(b, 0) == 15 {
        decoding::law_version_response_decodes(b.subrange(8, 16));
        let m = wire::decoded::<VersionResponse>(b.subrange(8, 16));
        layout::law_version_response_layout(m, b, 8);
        if b.len() >= 20 {
            decoding::law_version_response2_decodes(b.subrange(8, 20));
            let m = wire::decoded::<VersionResponse2>(b.subrange(8, 20));
            layout::law_version_response2_layout(m, b, 8);
        }
        if b.len() >= 40 {
            decoding::law_version_response3_decodes(b.subrange(8, 40));
            let m = wire::decoded::<VersionResponse3>(b.subrange(8, 40));
            layout::law_version_response3_layout(m, b, 8);
        }
    }
}

/// Law: an answer is one if its type is 15 and it holds at least the short
/// form. Byte 8 says whether the version is supported, bytes 12 to 16 hold
/// the connection id, bytes 16 to 20 the features where the answer is long
/// enough for them, and bytes 24 to 40 the two monitor pages where it is long
/// enough for those. What is missing is zero.
pub proof fn law_version_answer(b: &[u8], r: Result<ParsedVersionResponse>)
    requires
        call_ensures(parse_version_response, (b,), r),
    ensures
        r is Ok <==> b@.len() >= 16 && layout::word32(b@, 0) == 15,
        r matches Ok(p) ==> {
            &&& p.version_supported == (b@[8] != 0)
            &&& p.selected_version_or_connection_id == layout::word32(b@, 12)
            &&& p.supported_features.0 == (if b@.len() >= 20 {
                layout::word32(b@, 16)
            } else {
                0
            })
            &&& p.parent_to_child_monitor_page_gpa == (if b@.len() >= 40 {
                layout::word64(b@, 24)
            } else {
                0
            })
            &&& p.child_to_parent_monitor_page_gpa == (if b@.len() >= 40 {
                layout::word64(b@, 32)
            } else {
                0
            })
        },
{
    lemma_version_response(b@);
}

/// Law: from 5.0 on the host chooses the connection id; before that it is 1.
/// All else in the agreed state is what the host answered.
pub proof fn law_agreed(v: Version, p: ParsedVersionResponse, r: ConnectionState)
    requires
        call_ensures(build_connection_state, (v, p), r),
    ensures
        r.selected_version == v,
        v.number() >= 0x5_0000 ==> r.post_message_connection_id
            == p.selected_version_or_connection_id,
        v.number() < 0x5_0000 ==> r.post_message_connection_id == 1,
        r.feature_flags == p.supported_features,
        r.parent_to_child_monitor_page_gpa == p.parent_to_child_monitor_page_gpa,
        r.child_to_parent_monitor_page_gpa == p.child_to_parent_monitor_page_gpa,
{
}

/// The event is a request for `version`: the supported features are all that
/// the guest knows, and the client id goes along from 6.0 on.
pub open spec fn asks_for(ev: HvEvent, version: Version, client_id: Guid) -> bool {
    &&& ev matches HvEvent::Posted { connection_id, payload, .. }
    &&& version.number() < 0x5_0000 ==> connection_id == 1
    &&& version.number() >= 0x5_0000 ==> connection_id == 4
    &&& layout::word32(payload, 0) == 14
    &&& layout::word32(payload, 4) == 0
    &&& layout::word32(payload, 8) == version.number()
    &&& layout::word32(payload, 12) == 0
    &&& version.number() < 0x5_0000 ==> layout::word64(payload, 16) == 0
    &&& version.number() >= 0x5_0000 ==> layout::word64(payload, 16) == 2 + 0x1_0000_0000 * 0xf
    &&& layout::word64(payload, 24) == 0
    &&& layout::word64(payload, 32) == 0
    &&& version.number() < 0x6_0000 ==> payload.len() == 40
    &&& version.number() >= 0x6_0000 ==> {
        &&& payload.len() == 56
        &&& layout::word32(payload, 40) == client_id.data1
        &&& layout::word16(payload, 44) == client_id.data2
        &&& layout::word16(payload, 46) == client_id.data3
        &&& forall|i: int| 0 <= i < 8 ==> #[trigger] client_id.data4@[i] == payload[48 + i]
    }
}

/// The event is a wait for an answer to such a request, and the answer came.
pub open spec fn answered(ev: HvEvent) -> bool {
    &&& ev matches HvEvent::Polled { key, result, response, .. }
    &&& key == CompletionKey::VersionResponse
    &&& result is Ok
    &&& response matches Some(b)
    &&& b.len() >= 16
    &&& layout::word32(b, 0) == 15
}

/// Step number `i` of a walk down the ladder.
proof fn lemma_negotiation(
    ladder: Seq<Version>,
    client_id: Guid,
    table: (Seq<SlotState>, Seq<SlotState>),
    ev: Seq<HvEvent>,
    r: Result<ConnectionState>,
    i: int,
)
    requires
        connection::negotiation(ladder, client_id, table, ev, r),
        0 <= i,
        2 * i < ev.len(),
    ensures
        i < ladder.len(),
        asks_for(ev[2 * i], ladder[i], client_id),
        2 * i + 2 < ev.len() ==> {
            &&& ev[2 * i]->Posted_result is Ok
            &&& answered(ev[2 * i + 1])
            &&& ev[2 * i + 1]->Polled_response->0[8] == 0
        },
        2 * i + 2 == ev.len() && r is Ok ==> {
            &&& ev[2 * i]->Posted_result is Ok
            &&& answered(ev[2 * i + 1])
            &&& ev[2 * i + 1]->Polled_response->0[8] != 0
        },
        2 * i + 1 == ev.len() ==> r is Err && ev[2 * i]->Posted_result == Err::<
            (),
            Error,
        >(r->Err_0),
    decreases ladder.len(),
{
    if ladder.len() > 0 {
        let version = ladder[0];
        let id = if version.number() >= Version::Copper.number() {
            Some(client_id)
        } else {
            None
        };
        lemma_contact(
            version,
            id,
            FeatureFlags(0xf),
            connection::ladder_request(version, client_id),
        );
        if connection::post_result(ev[0]) is Ok {
            let key = CompletionKey::VersionResponse;
            match connection::reply_of(ev[1]) {
                Ok(bytes) => {
                    lemma_version_response(bytes);
                    match connection::version_response(bytes) {
                        Ok(p) => {
                            if !p.version_supported {
                                let next = connection::taken(
                                    connection::table_after_drain(table.0, key, ev[1]),
                                    table.0.len() as int,
                                );
                                if i > 0 {
                                    lemma_negotiation(
                                        ladder.drop_first(),
                                        client_id,
                                        (next, table.1),
                                        ev.skip(2),
                                        r,
                                        i - 1,
                                    );
                                    assert(ev.skip(2)[2 * (i - 1)] == ev[2 * i]);
                                    if 2 * i + 1 < ev.len() {
                                        assert(ev.skip(2)[2 * (i - 1) + 1] == ev[2 * i + 1]);
                                    }
                                }
                                lemma_negotiation_ok(
                                    ladder.drop_first(),
                                    client_id,
                                    (next, table.1),
                                    ev.skip(2),
                                    r,
                                );
                            }
                        },
                        Err(_) => {},
                    }
                },
                Err(_) => {},
            }
        }
    }
}

/// A walk that ended well made events.
proof fn lemma_negotiation_ok(
    ladder: Seq<Version>,
    client_id: Guid,
    table: (Seq<SlotState>, Seq<SlotState>),
    ev: Seq<HvEvent>,
    r: Result<ConnectionState>,
)
    requires
        connection::negotiation(ladder, client_id, table, ev, r),
    ensures
        r is Ok ==> ev.len() >= 2,
        ladder.len() > 0 ==> ev.len() >= 1,
{
}

/// Law: the versions are asked for one by one, in the ladder's order; each is
/// asked for once, and the next one only after the host refused it. The walk
/// ends with the first that the host accepts.
pub proof fn law_versions_asked<C: HypercallTrait, P: MessagePump, H: ConnectResultHandler>(
    ctx: &mut HvCtx<C>,
    table: &mut CompletionTable,
    pump: &mut P,
    handler: &mut Option<H>,
    client_id: Guid,
    ladder: &[Version],
    r: Result<ConnectionState>,
    i: int,
)
    requires
        call_ensures(
            negotiate_version::<C, P, H>,
            (ctx, table, pump, handler, client_id, ladder),
            r,
        ),
        0 <= i,
        2 * i < final(ctx).log().len() - old(ctx).log().len(),
    ensures
        ({
            let n = old(ctx).log().len() as int;
            let log = final(ctx).log();
            &&& old(ctx).log().is_prefix_of(log)
            &&& i < ladder@.len()
            &&& asks_for(log[n + 2 * i], ladder@[i], client_id)
            &&& n + 2 * i + 2 < log.len() ==> {
                &&& log[n + 2 * i]->Posted_result is Ok
                &&& answered(log[n + 2 * i + 1])
                &&& log[n + 2 * i + 1]->Polled_response->0[8] == 0
            }
            &&& n + 2 * i + 2 == log.len() && r is Ok ==> {
                &&& log[n + 2 * i]->Posted_result is Ok
                &&& answered(log[n + 2 * i + 1])
                &&& log[n + 2 * i + 1]->Polled_response->0[8] != 0
            }
            &&& n + 2 * i + 1 == log.len() ==> r is Err && log[n + 2 * i]->Posted_result
                == Err::<(), Error>(r->Err_0)
        }),
{
    let ev = final(ctx).log().skip(old(ctx).log().len() as int);
    lemma_negotiation(ladder@, client_id, (old(table)@, final(table)@), ev, r, i);
}

/// Law: the version that is agreed on is the one asked for last, and the
/// agreed state is what the host answered to it: from 5.0 on the connection
/// id in bytes 12 to 16, before that 1; and the features in bytes 16 to 20.
pub proof fn law_version_agreed<C: HypercallTrait, P: MessagePump, H: ConnectResultHandler>(
    ctx: &mut HvCtx<C>,
    table: &mut CompletionTable,
    pump: &mut P,
    handler: &mut Option<H>,
    client_id: Guid,
    ladder: &[Version],
    r: Result<ConnectionState>,
)
    requires
        call_ensures(
            negotiate_version::<C, P, H>,
            (ctx, table, pump, handler, client_id, ladder),
            r,
        ),
    ensures
        ladder@.len() > 0 ==> final(ctx).log().len() > old(ctx).log().len(),
        r matches Ok(state) ==> {
            let made = final(ctx).log().len() - old(ctx).log().len();
            let b = final(ctx).log().last()->Polled_response->0;
            &&& made >= 2
            &&& made % 2 == 0
            &&& made <= 2 * ladder@.len()
            &&& state.selected_version == ladder@[made / 2 - 1]
            &&& state.post_message_connection_id == (if state.selected_version.number()
                >= 0x5_0000 {
                layout::word32(b, 12)
            } else {
                1
            })
            &&& state.feature_flags.0 == (if b.len() >= 20 {
                layout::word32(b, 16)
            } else {
                0
            })
            &&& state.parent_to_child_monitor_page_gpa == (if b.len() >= 40 {
                layout::word64(b, 24)
            } else {
                0
            })
            &&& state.child_to_parent_monitor_page_gpa == (if b.len() >= 40 {
                layout::word64(b, 32)
            } else {
                0
            })
        },
        final(ctx).log().len() == old(ctx).log().len() ==> r == Err::<ConnectionState, Error>(
            Error::VersionMismatch,
        ),
{
    let ev = final(ctx).log().skip(old(ctx).log().len() as int);
    let t = (old(table)@, final(table)@);
    lemma_negotiation_ok(ladder@, client_id, t, ev, r);
    if r is Ok {
        connection::law_negotiated_from_ladder(ladder@, client_id, t, ev, r->Ok_0);
        let bytes = connection::reply_of(ev.last())->Ok_0;
        lemma_version_response(bytes);
        assert(ev.last() == final(ctx).log().last());
    }
}

/// The event posts a message of type `ty` that has no body.
pub open spec fn posts_bare(ev: HvEvent, to: u32, ty: int) -> bool {
    &&& ev matches HvEvent::Posted { connection_id, payload, .. }
    &&& connection_id == to
    &&& payload.len() == 8
    &&& layout::word32(payload, 0) == ty
    &&& layout::word32(payload, 4) == 0
}

/// What was posted and awaited, and how it ended.
pub open spec fn exchanged(
    to: u32,
    ty: int,
    key: CompletionKey,
    log: (Seq<HvEvent>, Seq<HvEvent>),
    r: Result<()>,
) -> bool {
    let n = log.0.len() as int;
    &&& log.0.is_prefix_of(log.1)
    &&& log.1.len() > n
    &&& posts_bare(log.1[n], to, ty)
    &&& match log.1[n]->Posted_result {
        Err(e) => log.1.len() == n + 1 && r == Err::<(), Error>(e),
        Ok(_) => {
            &&& log.1.len() == n + 2
            &&& log.1[n + 1] matches HvEvent::Polled { key: k, result, .. }
            &&& k == key
            &&& r == result
        },
    }
}

/// Law: asking for the offers posts a message of type 3 without a body and
/// waits for the end of the list.
pub proof fn law_offers_asked<
    C: HypercallTrait,
    P: MessagePump,
    S: MessageSink,
    H: ConnectResultHandler,
>(
    ctx: &mut HvCtx<C>,
    table: &mut CompletionTable,
    pump: &mut P,
    sink: &mut HandlerSink<S, H>,
    connection_id: u32,
    r: Result<()>,
)
    requires
        call_ensures(
            request_offers_with::<C, P, S, H>,
            (ctx, table, pump, sink, connection_id),
            r,
        ),
    ensures
        exchanged(
            connection_id,
            3,
            CompletionKey::AllOffersDelivered,
            (old(ctx).log(), final(ctx).log()),
            r,
        ),
{
    messages::lemma_message(RequestOffers, protocol::message_bytes(RequestOffers));
}

/// Law: unloading posts a message of type 16 without a body to the agreed
/// connection and waits for it to be confirmed; only then is the connection
/// gone. Without a connection nothing is posted.
pub proof fn law_unload_asked<
    C: HypercallTrait,
    P: MessagePump,
    S: MessageSink,
    H: ConnectResultHandler,
>(
    ctx: &mut HvCtx<C>,
    connection: &mut Option<ConnectionState>,
    table: &mut CompletionTable,
    pump: &mut P,
    sink: &mut HandlerSink<S, H>,
    r: Result<()>,
)
    requires
        call_ensures(unload_with::<C, P, S, H>, (ctx, connection, table, pump, sink), r),
    ensures
        match *old(connection) {
            None => r == Err::<(), Error>(Error::VersionMismatch)
                && final(ctx).log() == old(ctx).log(),
            Some(state) => exchanged(
                state.post_message_connection_id,
                16,
                CompletionKey::UnloadComplete,
                (old(ctx).log(), final(ctx).log()),
                r,
            ),
        },
        r is Ok ==> *final(connection) is None,
        r is Err ==> *final(connection) == *old(connection),
{
    messages::lemma_message(Unload, protocol::message_bytes(Unload));
}

/// Law: of the messages that came in, exactly those of type 1 that hold a
/// whole offer are offers, in the order in which they came: each one more
/// message adds its offer at the end, or nothing.
pub proof fn law_offers_collected(messages: Seq<Seq<u8>>, m: Seq<u8>)
    ensures
        connection::offers_in(Seq::<Seq<u8>>::empty()).len() == 0,
        ({
            let before = connection::offers_in(messages);
            let after = connection::offers_in(messages.push(m));
            if m.len() >= 196 && layout::word32(m, 0) == 1 {
                &&& after.len() == before.len() + 1
                &&& after.drop_last() == before
                &&& layout::word32(m, 8) == after.last().interface_id.data1
                &&& layout::word32(m, 24) == after.last().instance_id.data1
                &&& layout::word16(m, 56) == after.last().flags.0
                &&& layout::word16(m, 180) == after.last().subchannel_index
                &&& layout::word32(m, 184) == after.last().channel_id.0
                &&& layout::word32(m, 192) == after.last().connection_id
            } else {
                after == before
            }
        }),
{
    assert(messages.push(m).drop_last() =~= messages);
    messages::lemma_parsed::<OfferChannel>(m);
    if m.len() >= 196 && layout::word32(m, 0) == 1 {
        decoding::law_offer_channel_decodes(m.subrange(8, 196));
        let offer = wire::decoded::<OfferChannel>(m.subrange(8, 196));
        layout::law_offer_channel_layout(offer, m, 8);
        assert(connection::offers_in(messages).push(offer).drop_last() =~= connection::offers_in(
            messages,
        ));
    }
}

/// Law: the offers that a request returns are those among the messages that
/// came in until the end of the list; before a connection is agreed on there
/// are none, and nothing is posted.
pub proof fn law_offers_returned<C: HypercallTrait, H: ConnectResultHandler>(
    ctx: &mut HvCtx<C>,
    state: &mut VmbusState<H>,
    r: Result<Vec<OfferChannel>>,
)
    requires
        call_ensures(connection::request_offers::<C, H>, (ctx, state), r),
    ensures
        old(state).connection is None || old(state).synic is None ==> r == Err::<
            Vec<OfferChannel>,
            Error,
        >(Error::VersionMismatch)
            && final(ctx).log() == old(ctx).log(),
        r matches Ok(offers) ==> {
            &&& exchanged(
                old(state).connection->0.post_message_connection_id,
                3,
                CompletionKey::AllOffersDelivered,
                (old(ctx).log(), final(ctx).log()),
                Ok(()),
            )
            &&& offers@ == connection::offers_in(final(ctx).log().last()->Polled_messages)
        },
        final(state).connection == old(state).connection,
{
    messages::lemma_message(RequestOffers, protocol::message_bytes(RequestOffers));
}

/// Law: connecting walks the built-in ladder as the fixed client.
pub proof fn law_initiated<C: HypercallTrait, H: ConnectResultHandler>(
    ctx: &mut HvCtx<C>,
    state: &mut VmbusState<H>,
    r: Result<()>,
)
    requires
        call_ensures(connection::initiate::<C, H>, (ctx, state), r),
    ensures
        old(state).synic is None ==> r == Err::<(), Error>(Error::VersionMismatch)
            && final(ctx).log() == old(ctx).log(),
        old(state).synic is Some ==> {
            let n = old(ctx).log().len() as int;
            &&& final(ctx).log().len() > n
            &&& final(ctx).log()[n] matches HvEvent::Posted { connection_id, payload, .. }
            &&& connection_id == 4
            &&& payload.len() == 56
            &&& layout::word32(payload, 8) == 0x6_0000
            &&& layout::word32(payload, 40) == 0x6f70_746d
            &&& layout::word16(payload, 44) == 0x6b5f
            &&& layout::word16(payload, 46) == 0x696e
            &&& payload[48] == 0x76
            &&& payload[55] == 0
        },
        r is Ok ==> final(state).connection is Some,
        r is Err ==> final(state).connection == old(state).connection,
        final(state).synic == old(state).synic,
{
    if old(state).synic is Some {
        let ev = final(ctx).log().skip(old(ctx).log().len() as int);
        let out: Result<ConnectionState> = match r {
            Ok(_) => Ok(final(state).connection->0),
            Err(e) => Err(e),
        };
        let client = choose|client: Guid|
            #[trigger] connection::is_client_id(client) && connection::negotiation(
                Version::NEGOTIATION_LADDER@,
                client,
                (old(state).table@, final(state).table@),
                ev,
                out,
            );
        law_ladder();
        let ladder = Version::NEGOTIATION_LADDER@;
        lemma_negotiation_ok(ladder, client, (old(state).table@, final(state).table@), ev, out);
        lemma_negotiation(
            ladder,
            client,
            (old(state).table@, final(state).table@),
            ev,
            out,
            0,
        );
        assert(ev[0] == final(ctx).log()[old(ctx).log().len() as int]);
        assert(client.data4@[0] == 0x76);
        assert(client.data4@[7] == 0);
    }
}

/// Law: the client is `6f70746d-6b5f-696e-7661-7269616e7400`.
pub proof fn law_client_id(r: Guid)
    requires
        call_ensures(connection::client_id, (), r),
    ensures
        r.data1 == 0x6f70_746d,
        r.data2 == 0x6b5f,
        r.data3 == 0x696e,
        r.data4@ == seq![0x76u8, 0x61, 0x72, 0x69, 0x61, 0x6e, 0x74, 0],
{
}

/// The first request of a walk down the built-in ladder.
pub(crate) proof fn lemma_first_request<H: ConnectResultHandler>(
    state: (VmbusState<H>, VmbusState<H>),
    ev: Seq<HvEvent>,
    r: Result<()>,
)
    requires
        exists|client: Guid| #[trigger]
            connection::is_client_id(client) && connection::negotiation(
                Version::NEGOTIATION_LADDER@,
                client,
                (state.0.table@, state.1.table@),
                ev,
                match r {
                    Ok(_) => Ok(state.1.connection->0),
                    Err(e) => Err(e),
                },
            ),
    ensures
        ev.len() > 0,
        ev[0] is Posted,
        ev[0]->Posted_connection_id == 4,
        layout::word32(ev[0]->Posted_payload, 0) == 14,
        layout::word32(ev[0]->Posted_payload, 8) == 0x6_0000,
{
    let out: Result<ConnectionState> = match r {
        Ok(_) => Ok(state.1.connection->0),
        Err(e) => Err(e),
    };
    let t = (state.0.table@, state.1.table@);
    let ladder = Version::NEGOTIATION_LADDER@;
    let client = choose|client: Guid|
        #[trigger] connection::is_client_id(client) && connection::negotiation(
            ladder,
            client,
            t,
            ev,
            out,
        );
    lemma_negotiation_ok(ladder, client, t, ev, out);
    lemma_negotiation(ladder, client, t, ev, out, 0);
}

} // verus!
