//! Regions of guest memory that the host is given: GPADLs.
use crate::connection;
use crate::connection::ConnectionState;
use crate::connection::MessagePump;
use crate::error::Error;
use crate::error::Result;
use crate::gpadl;
use crate::gpadl::allocate_gpadl_id;
use crate::gpadl::body_count_for;
use crate::gpadl::body_count_for_bytes;
use crate::gpadl::build_single_range_payload;
use crate::gpadl::connection_id_from_state;
use crate::gpadl::encode_gpadl_messages;
use crate::gpadl::establish_gpadl;
use crate::gpadl::establish_gpadl_partial;
use crate::gpadl::establish_gpadl_with;
use crate::gpadl::teardown_gpadl;
use crate::gpadl::teardown_gpadl_with;
use crate::gpadl::GpadlHandle;
use crate::gpadl::GpadlMessages;
use crate::hvsock::ConnectResultHandler;
use crate::hvsock::HandlerSink;
use crate::hypercalls::HvCtx;
use crate::hypercalls::HvEvent;
use crate::hypercalls::HypercallTrait;
use crate::laws::decoding;
use crate::laws::layout;
use crate::laws::messages;
use crate::message;
use crate::message::CompletionKey;
use crate::message::CompletionTable;
use crate::message::MessageSink;
use crate::protocol;
use crate::protocol::ChannelId;
use crate::protocol::GpaRange;
use crate::protocol::GpadlBody;
use crate::protocol::GpadlCreated;
use crate::protocol::GpadlHeader;
use crate::protocol::GpadlId;
use crate::protocol::GpadlTeardown;
use crate::protocol::MessageType;
use crate::state::IdCounter;
use crate::state::VmbusState;
use crate::wire;
use crate::wire::Wire;
use vstd::prelude::*;

verus! {

/// Law: the first message holds 216 bytes of the range, each further one 224;
/// there are as many further ones as it takes, and not one more.
pub proof fn law_body_count(n: usize, r: usize)
    requires
        call_ensures(body_count_for_bytes, (n,), r),
    ensures
        n <= 216 + 224 * r,
        r > 0 ==> n > 216 + 224 * (r - 1),
{
}

/// Law: a range of `pages` pages takes 8 bytes and 8 more for each page.
pub proof fn law_body_count_pages(pages: usize, r: usize)
    requires
        call_ensures(body_count_for, (pages,), r),
    ensures
        8 + 8 * pages <= 216 + 224 * r,
        r > 0 ==> 8 + 8 * pages > 216 + 224 * (r - 1),
{
}

/// The description of one region: its length in bytes, the offset 0 in its
/// first page, and the number of each of its pages.
pub open spec fn describes(b: Seq<u8>, total_bytes: u32, pfns: Seq<u64>) -> bool {
    &&& b.len() == 8 + 8 * pfns.len()
    &&& layout::word32(b, 0) == total_bytes
    &&& layout::word32(b, 4) == 0
    &&& forall|i: int| 0 <= i < pfns.len() ==> layout::word64(b, 8 + 8 * i) == #[trigger] pfns[i]
}

proof fn lemma_describes(total_bytes: u32, pfns: Seq<u64>)
    ensures
        describes(gpadl::single_range(total_bytes, pfns), total_bytes, pfns),
{
    let range = GpaRange { byte_count: total_bytes, byte_offset: 0 };
    range.lemma_wire_len();
    wire::lemma_u64s_len(pfns);
    let b = gpadl::single_range(total_bytes, pfns);
    assert(b.subrange(0, 8) =~= range.wire());
    layout::law_gpa_range_layout(range, b, 0);
    assert forall|i: int| 0 <= i < pfns.len() implies layout::word64(b, 8 + 8 * i)
        == #[trigger] pfns[i] by {
        wire::lemma_u64s_index(pfns, i);
        assert(b.subrange(8 + 8 * i, 8 + 8 * i + 8) =~= wire::u64s(pfns).subrange(
            8 * i,
            8 * i + 8,
        ));
        layout::law_word64(pfns[i], b, 8 + 8 * i);
    }
}

/// Law: a region is described by its length, offset 0, and the numbers of its
/// pages in the order given.
pub proof fn law_range_described(total_bytes: u32, pfns: &[u64], r: Vec<u8>)
    requires
        call_ensures(build_single_range_payload, (total_bytes, pfns), r),
    ensures
        describes(r@, total_bytes, pfns@),
{
    lemma_describes(total_bytes, pfns@);
}

/// Message number `i` about a region with the description `range`: the first
/// is of type 8 and names channel, region, length and number of ranges; the
/// others are of type 9 and name the region.
pub open spec fn region_message(
    p: Seq<u8>,
    channel_id: ChannelId,
    gpadl_id: GpadlId,
    range_count: u16,
    range: Seq<u8>,
    i: int,
) -> bool {
    &&& layout::word32(p, 4) == 0
    &&& layout::word32(p, 12) == gpadl_id.0
    &&& p.len() <= 240
    &&& if i == 0 {
        &&& layout::word32(p, 0) == 8
        &&& layout::word32(p, 8) == channel_id.0
        &&& layout::word16(p, 16) == range.len()
        &&& layout::word16(p, 18) == range_count
        &&& p.len() == 20 + (if range.len() <= 216 {
            range.len() as int
        } else {
            216
        })
        &&& forall|j: int| 20 <= j < p.len() ==> #[trigger] p[j] == range[j - 20]
    } else {
        &&& layout::word32(p, 0) == 9
        &&& layout::word32(p, 8) == 0
        &&& p.len() == 16 + (if range.len() - 216 - 224 * (i - 1) <= 224 {
            range.len() - 216 - 224 * (i - 1)
        } else {
            224
        })
        &&& forall|j: int|
            16 <= j < p.len() ==> #[trigger] p[j] == range[j - 16 + 216 + 224 * (i - 1)]
    }
}

proof fn lemma_region_message(
    channel_id: ChannelId,
    gpadl_id: GpadlId,
    range_count: u16,
    range: Seq<u8>,
    i: int,
)
    requires
        range.len() <= u16::MAX,
        0 <= i < gpadl::gpadl_messages(channel_id, gpadl_id, range_count, range).len(),
    ensures
        region_message(
            gpadl::gpadl_messages(channel_id, gpadl_id, range_count, range)[i],
            channel_id,
            gpadl_id,
            range_count,
            range,
            i,
        ),
{
    let p = gpadl::gpadl_messages(channel_id, gpadl_id, range_count, range)[i];
    if i == 0 {
        let m = GpadlHeader { channel_id, gpadl_id, len: range.len() as u16, count: range_count };
        let b = protocol::message_bytes(m);
        m.lemma_wire_len();
        messages::lemma_message(m, b);
        layout::law_gpadl_header_layout(m, b, 8);
        assert(p == b + gpadl::share(range, 0));
        assert forall|j: int| 0 <= j < 20 implies #[trigger] p[j] == b[j] by {}
    } else {
        let m = GpadlBody { rsvd: 0, gpadl_id };
        let b = protocol::message_bytes(m);
        m.lemma_wire_len();
        messages::lemma_message(m, b);
        layout::law_gpadl_body_layout(m, b, 8);
        assert(p == b + gpadl::share(range, i));
        assert forall|j: int| 0 <= j < 16 implies #[trigger] p[j] == b[j] by {}
    }
}

/// Law: the messages about a region carry its description whole and in
/// order, 216 bytes in the first and 224 in each that follows.
pub proof fn law_region_encoded(
    channel_id: ChannelId,
    gpadl_id: GpadlId,
    range_count: u16,
    range: &[u8],
    r: GpadlMessages,
    i: int,
)
    requires
        range@.len() <= u16::MAX,
        call_ensures(encode_gpadl_messages, (channel_id, gpadl_id, range_count, range), r),
        0 <= i < r.messages@.len(),
    ensures
        region_message(r.messages@[i]@, channel_id, gpadl_id, range_count, range@, i),
        range@.len() <= 216 + 224 * (r.messages@.len() - 1),
        r.messages@.len() > 1 ==> range@.len() > 216 + 224 * (r.messages@.len() - 2),
{
    assert(r.bytes()[i] == r.messages@[i]@);
    lemma_region_message(channel_id, gpadl_id, range_count, range@, i);
}

/// Law: a region is refused, and nothing posted, if it is not made of whole
/// pages, if the number of pages is wrong, or before there is a connection.
/// Otherwise each message about it goes to the agreed connection, in order.
pub proof fn law_region_posted<C: HypercallTrait>(
    ctx: &mut HvCtx<C>,
    connection: Option<ConnectionState>,
    channel_id: ChannelId,
    gpadl_id: GpadlId,
    total_bytes: u32,
    pfns: &[u64],
    r: Result<GpadlHandle>,
    i: int,
)
    requires
        call_ensures(
            establish_gpadl_partial::<C>,
            (ctx, connection, channel_id, gpadl_id, total_bytes, pfns),
            r,
        ),
    ensures
        total_bytes % 4096 != 0 ==> r == Err::<GpadlHandle, Error>(
            Error::Parse { ty: None, reason: "GPADL total_bytes must be page-aligned" },
        ) && final(ctx).log() == old(ctx).log(),
        total_bytes % 4096 == 0 && 4096 * pfns@.len() != total_bytes ==> r == Err::<
            GpadlHandle,
            Error,
        >(
            Error::Parse { ty: None, reason: "GPADL pfn count doesn't match total_bytes" },
        ) && final(ctx).log() == old(ctx).log(),
        4096 * pfns@.len() == total_bytes && connection is None ==> r == Err::<GpadlHandle, Error>(
            Error::VersionMismatch,
        ) && final(ctx).log() == old(ctx).log(),
        4096 * pfns@.len() == total_bytes && connection is Some && 8 + 8 * pfns@.len()
            <= u16::MAX ==> {
            let n = old(ctx).log().len() as int;
            let log = final(ctx).log();
            &&& old(ctx).log().is_prefix_of(log)
            &&& log.len() > n
            &&& 0 <= i < log.len() - n ==> {
                &&& log[n + i] matches HvEvent::Posted { connection_id, payload, .. }
                &&& connection_id == connection->0.post_message_connection_id
                &&& region_message(
                    payload,
                    channel_id,
                    gpadl_id,
                    1,
                    gpadl::single_range(total_bytes, pfns@),
                    i,
                )
                &&& describes(gpadl::single_range(total_bytes, pfns@), total_bytes, pfns@)
            }
            &&& r is Ok ==> 8 + 8 * pfns@.len() <= 216 + 224 * (log.len() - n - 1)
        },
        r matches Ok(h) ==> h.channel_id == channel_id && h.gpadl_id == gpadl_id,
{
    let range = gpadl::single_range(total_bytes, pfns@);
    lemma_describes(total_bytes, pfns@);
    if 4096 * pfns@.len() == total_bytes && connection is Some && 8 + 8 * pfns@.len() <= u16::MAX {
        assert(total_bytes % 4096 == 0);
        assert(total_bytes / 4096 == pfns@.len());
        let n = old(ctx).log().len() as int;
        let ev = final(ctx).log().skip(n);
        if 0 <= i < ev.len() {
            assert(ev[i] == final(ctx).log()[n + i]);
            lemma_region_message(channel_id, gpadl_id, 1, range, i);
        }
    }
}

/// Making a region known, as `gpadl`, posted its messages to `to`, waited and
/// came to `r`: the region is made exactly if the host answers with status
/// zero.
pub open spec fn makes(
    to: u32,
    gpadl: GpadlHandle,
    total_bytes: u32,
    pfns: Seq<u64>,
    log: (Seq<HvEvent>, Seq<HvEvent>),
    r: Result<GpadlHandle>,
    i: int,
) -> bool {
    let n = log.0.len() as int;
    let range = gpadl::single_range(total_bytes, pfns);
    &&& log.0.is_prefix_of(log.1)
    &&& log.1.len() > n
    &&& describes(range, total_bytes, pfns)
    &&& 0 <= i < log.1.len() - n && log.1[n + i] is Posted ==> {
        &&& log.1[n + i]->Posted_connection_id == to
        &&& region_message(
            log.1[n + i]->Posted_payload,
            gpadl.channel_id,
            gpadl.gpadl_id,
            1,
            range,
            i,
        )
    }
    &&& r is Ok ==> {
        &&& 8 + 8 * pfns.len() <= 216 + 224 * (log.1.len() - n - 2)
        &&& log.1.last() matches HvEvent::Polled { key, result, response, .. }
        &&& key == CompletionKey::GpadlCreated(gpadl.gpadl_id)
        &&& result is Ok
        &&& response matches Some(b)
        &&& b.len() >= 20
        &&& layout::word32(b, 0) == 10
        &&& layout::word32(b, 16) == 0
        &&& r == Ok::<GpadlHandle, Error>(gpadl)
    }
    &&& log.1.last() is Polled && log.1.last()->Polled_result is Ok ==> {
        match log.1.last()->Polled_response {
            Some(b) => b.len() >= 20 && layout::word32(b, 0) == 10 ==> {
                &&& layout::word32(b, 16) == 0 ==> r is Ok
                &&& layout::word32(b, 16) != 0 ==> r == Err::<GpadlHandle, Error>(
                    Error::Parse {
                        ty: Some(MessageType(10)),
                        reason: "host returned non-success GpadlCreated status",
                    },
                )
            },
            None => r == Err::<GpadlHandle, Error>(Error::Timeout),
        }
    }
    &&& log.1.last() is Polled && log.1.last()->Polled_result is Err ==> r == Err::<
        GpadlHandle,
        Error,
    >(log.1.last()->Polled_result->Err_0)
    &&& log.1.last() is Posted ==> log.1.last()->Posted_result is Err && r == Err::<
        GpadlHandle,
        Error,
    >(log.1.last()->Posted_result->Err_0)
}

pub(crate) proof fn lemma_makes(
    to: u32,
    gpadl: GpadlHandle,
    total_bytes: u32,
    pfns: Seq<u64>,
    table: (Seq<message::SlotState>, Seq<message::SlotState>),
    log: (Seq<HvEvent>, Seq<HvEvent>),
    r: Result<GpadlHandle>,
    i: int,
)
    requires
        log.0.is_prefix_of(log.1),
        8 + 8 * pfns.len() <= u16::MAX,
        gpadl::established(
            to,
            gpadl,
            gpadl::single_range(total_bytes, pfns),
            table,
            log.1.skip(log.0.len() as int),
            r,
        ),
    ensures
        makes(to, gpadl, total_bytes, pfns, log, r, i),
{
    let range = gpadl::single_range(total_bytes, pfns);
    let n = log.0.len() as int;
    let ev = log.1.skip(n);
    let all = gpadl::gpadl_messages(gpadl.channel_id, gpadl.gpadl_id, 1, range);
    lemma_describes(total_bytes, pfns);
    assert(ev.len() > 0);
    assert(ev.last() == log.1.last());
    if 0 <= i < ev.len() {
        assert(ev[i] == log.1[n + i]);
        if ev.len() > all.len() {
            if i < all.len() {
                assert(ev.drop_last()[i] == ev[i]);
                lemma_region_message(gpadl.channel_id, gpadl.gpadl_id, 1, range, i);
            }
        } else {
            lemma_region_message(gpadl.channel_id, gpadl.gpadl_id, 1, range, i);
        }
    }
    if ev.len() <= all.len() {
        assert(connection::posts(ev[ev.len() - 1], to, all[ev.len() - 1]));
    }
    if ev.last() is Polled && ev.last()->Polled_response is Some {
        lemma_created(ev.last()->Polled_response->0);
    }
}

proof fn lemma_created(b: Seq<u8>)
    ensures
        message::parsed::<GpadlCreated>(b) is Ok <==> b.len() >= 20 && layout::word32(b, 0) == 10,
        message::parsed::<GpadlCreated>(b) matches Ok(m) ==> (m.status == 0 <==> layout::word32(b, 16)
            == 0),
{
    messages::lemma_parsed::<GpadlCreated>(b);
    if b.len() >= 20 && layout::word32(b, 0) == 10 {
        decoding::law_gpadl_created_decodes(b.subrange(8, 20));
        let m = wire::decoded::<GpadlCreated>(b.subrange(8, 20));
        layout::law_gpadl_created_layout(m, b, 8);
    }
}

/// Law: making a region known to the host.
pub proof fn law_region_made<
    C: HypercallTrait,
    P: MessagePump,
    S: MessageSink,
    H: ConnectResultHandler,
>(
    ctx: &mut HvCtx<C>,
    connection: Option<ConnectionState>,
    table: &mut CompletionTable,
    pump: &mut P,
    sink: &mut HandlerSink<S, H>,
    channel_id: ChannelId,
    gpadl_id: GpadlId,
    total_bytes: u32,
    pfns: &[u64],
    r: Result<GpadlHandle>,
    i: int,
)
    requires
        call_ensures(
            establish_gpadl_with::<C, P, S, H>,
            (ctx, connection, table, pump, sink, channel_id, gpadl_id, total_bytes, pfns),
            r,
        ),
    ensures
        total_bytes % 4096 != 0 ==> r == Err::<GpadlHandle, Error>(
            Error::Parse { ty: None, reason: "GPADL total_bytes must be page-aligned" },
        ) && final(ctx).log() == old(ctx).log(),
        total_bytes % 4096 == 0 && 4096 * pfns@.len() != total_bytes ==> r == Err::<
            GpadlHandle,
            Error,
        >(
            Error::Parse { ty: None, reason: "GPADL pfn count doesn't match total_bytes" },
        ) && final(ctx).log() == old(ctx).log(),
        4096 * pfns@.len() == total_bytes && connection is None ==> r == Err::<GpadlHandle, Error>(
            Error::VersionMismatch,
        ) && final(ctx).log() == old(ctx).log(),
        4096 * pfns@.len() == total_bytes && connection is Some && 8 + 8 * pfns@.len()
            <= u16::MAX ==> makes(
            connection->0.post_message_connection_id,
            GpadlHandle { channel_id, gpadl_id },
            total_bytes,
            pfns@,
            (old(ctx).log(), final(ctx).log()),
            r,
            i,
        ),
{
    if 4096 * pfns@.len() == total_bytes && connection is Some && 8 + 8 * pfns@.len() <= u16::MAX {
        assert(total_bytes % 4096 == 0);
        assert(total_bytes / 4096 == pfns@.len());
        lemma_makes(
            connection->0.post_message_connection_id,
            GpadlHandle { channel_id, gpadl_id },
            total_bytes,
            pfns@,
            (old(table)@, final(table)@),
            (old(ctx).log(), final(ctx).log()),
            r,
            i,
        );
    }
}

/// Law: the same of the guest's own state, where the region gets the next
/// GPADL id.
pub proof fn law_region_made_over<C: HypercallTrait, H: ConnectResultHandler>(
    ctx: &mut HvCtx<C>,
    state: &mut VmbusState<H>,
    channel_id: ChannelId,
    total_bytes: u32,
    pfns: &[u64],
    r: Result<GpadlHandle>,
    i: int,
)
    requires
        call_ensures(establish_gpadl::<C, H>, (ctx, state, channel_id, total_bytes, pfns), r),
    ensures
        old(state).synic is None ==> r == Err::<GpadlHandle, Error>(Error::VersionMismatch)
            && final(ctx).log() == old(ctx).log(),
        old(state).synic is Some && total_bytes % 4096 != 0 ==> r == Err::<GpadlHandle, Error>(
            Error::Parse { ty: None, reason: "GPADL total_bytes must be page-aligned" },
        ) && final(ctx).log() == old(ctx).log(),
        old(state).synic is Some && total_bytes % 4096 == 0 && 4096 * pfns@.len() != total_bytes
            ==> r == Err::<
            GpadlHandle,
            Error,
        >(
            Error::Parse { ty: None, reason: "GPADL pfn count doesn't match total_bytes" },
        ) && final(ctx).log() == old(ctx).log(),
        old(state).synic is Some && 4096 * pfns@.len() == total_bytes
            && old(state).connection is None ==> r == Err::<GpadlHandle, Error>(
            Error::VersionMismatch,
        ) && final(ctx).log() == old(ctx).log(),
        4096 * pfns@.len() == total_bytes && old(state).connection is Some
            && old(state).synic is Some && 8 + 8 * pfns@.len() <= u16::MAX ==> makes(
            old(state).connection->0.post_message_connection_id,
            GpadlHandle { channel_id, gpadl_id: GpadlId(old(state).gpadl_ids.next) },
            total_bytes,
            pfns@,
            (old(ctx).log(), final(ctx).log()),
            r,
            i,
        ),
        old(state).synic is Some && old(state).gpadl_ids.next < u32::MAX
            ==> final(state).gpadl_ids.next == old(state).gpadl_ids.next + 1,
        final(state).open_ids.next == old(state).open_ids.next,
        final(state).connection == old(state).connection,
{
    if 4096 * pfns@.len() == total_bytes && old(state).connection is Some
        && old(state).synic is Some && 8 + 8 * pfns@.len() <= u16::MAX {
        assert(total_bytes % 4096 == 0);
        assert(total_bytes / 4096 == pfns@.len());
        lemma_makes(
            old(state).connection->0.post_message_connection_id,
            GpadlHandle { channel_id, gpadl_id: GpadlId(old(state).gpadl_ids.next) },
            total_bytes,
            pfns@,
            (old(state).table@, final(state).table@),
            (old(ctx).log(), final(ctx).log()),
            r,
            i,
        );
    }
}

/// Tearing a region down posted this and came to `r`: a message of type 11
/// that names channel and region, and a wait for the host to confirm it.
pub open spec fn tears_down(
    to: u32,
    handle: GpadlHandle,
    log: (Seq<HvEvent>, Seq<HvEvent>),
    r: Result<()>,
) -> bool {
    let n = log.0.len() as int;
    &&& log.0.is_prefix_of(log.1)
    &&& log.1.len() > n
    &&& log.1[n] matches HvEvent::Posted { connection_id, payload, result, .. }
    &&& connection_id == to
    &&& payload.len() == 16
    &&& layout::word32(payload, 0) == 11
    &&& layout::word32(payload, 4) == 0
    &&& layout::word32(payload, 8) == handle.channel_id.0
    &&& layout::word32(payload, 12) == handle.gpadl_id.0
    &&& match result {
        Err(e) => log.1.len() == n + 1 && r == Err::<(), Error>(e),
        Ok(_) => {
            &&& log.1.len() == n + 2
            &&& log.1[n + 1] matches HvEvent::Polled { key, result, .. }
            &&& key == CompletionKey::GpadlTorndown(handle.gpadl_id)
            &&& r == result
        },
    }
}

pub(crate) proof fn lemma_tears_down(handle: GpadlHandle)
    ensures
        ({
            let p = protocol::message_bytes(
                GpadlTeardown { channel_id: handle.channel_id, gpadl_id: handle.gpadl_id },
            );
            &&& p.len() == 16
            &&& layout::word32(p, 0) == 11
            &&& layout::word32(p, 4) == 0
            &&& layout::word32(p, 8) == handle.channel_id.0
            &&& layout::word32(p, 12) == handle.gpadl_id.0
        }),
{
    let m = GpadlTeardown { channel_id: handle.channel_id, gpadl_id: handle.gpadl_id };
    m.lemma_wire_len();
    messages::lemma_message(m, protocol::message_bytes(m));
    layout::law_gpadl_teardown_layout(m, protocol::message_bytes(m), 8);
}

/// Law: tearing a region down.
pub proof fn law_region_torn_down<
    C: HypercallTrait,
    P: MessagePump,
    S: MessageSink,
    H: ConnectResultHandler,
>(
    ctx: &mut HvCtx<C>,
    connection: Option<ConnectionState>,
    table: &mut CompletionTable,
    pump: &mut P,
    sink: &mut HandlerSink<S, H>,
    handle: GpadlHandle,
    r: Result<()>,
)
    requires
        call_ensures(
            teardown_gpadl_with::<C, P, S, H>,
            (ctx, connection, table, pump, sink, handle),
            r,
        ),
    ensures
        match connection {
            None => r == Err::<(), Error>(Error::VersionMismatch)
                && final(ctx).log() == old(ctx).log(),
            Some(state) => tears_down(
                state.post_message_connection_id,
                handle,
                (old(ctx).log(), final(ctx).log()),
                r,
            ),
        },
{
    lemma_tears_down(handle);
    if connection is Some {
        let n = old(ctx).log().len() as int;
        let ev = final(ctx).log().skip(n);
        assert(ev[0] == final(ctx).log()[n]);
        if ev.len() > 1 {
            assert(ev[1] == final(ctx).log()[n + 1]);
        }
    }
}

/// Law: the same of the guest's own state.
pub proof fn law_region_torn_down_over<C: HypercallTrait, H: ConnectResultHandler>(
    ctx: &mut HvCtx<C>,
    state: &mut VmbusState<H>,
    handle: GpadlHandle,
    r: Result<()>,
)
    requires
        call_ensures(teardown_gpadl::<C, H>, (ctx, state, handle), r),
    ensures
        if old(state).synic is None || old(state).connection is None {
            r == Err::<(), Error>(Error::VersionMismatch) && final(ctx).log() == old(ctx).log()
        } else {
            tears_down(
                old(state).connection->0.post_message_connection_id,
                handle,
                (old(ctx).log(), final(ctx).log()),
                r,
            )
        },
        final(state).connection == old(state).connection,
{
    lemma_tears_down(handle);
    if old(state).synic is Some && old(state).connection is Some {
        let n = old(ctx).log().len() as int;
        let ev = final(ctx).log().skip(n);
        assert(ev[0] == final(ctx).log()[n]);
        if ev.len() > 1 {
            assert(ev[1] == final(ctx).log()[n + 1]);
        }
    }
}

/// Law: what is made with a handle is told apart by its ids, a region gets
/// the next id, and messages go to the agreed connection.
pub proof fn law_region_ids(
    handle: GpadlHandle,
    a: GpadlId,
    b: ChannelId,
    ids: &mut IdCounter,
    next: GpadlId,
    connection: Option<ConnectionState>,
    to: Result<u32>,
)
    requires
        call_ensures(GpadlHandle::id, (&handle,), a),
        call_ensures(GpadlHandle::channel_id, (&handle,), b),
        call_ensures(allocate_gpadl_id, (ids,), next),
        call_ensures(connection_id_from_state, (connection,), to),
    ensures
        a == handle.gpadl_id,
        b == handle.channel_id,
        next.0 == old(ids).next,
        next.0 < u32::MAX ==> final(ids).next == next.0 + 1,
        to is Ok <==> connection is Some,
        to matches Ok(id) ==> id == connection->0.post_message_connection_id,
{
}

} // verus!
