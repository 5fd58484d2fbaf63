//! GPADL (Guest Physical Address Descriptor List) create / teardown.
//!
//! A GPADL is how the guest hands the host a page-aligned shared-memory
//! region (typically a ring buffer). We send:
//!
//! 1. A [`GpadlHeader`] message describing `channel_id`, `gpadl_id`,
//!    total range-payload byte-length, and the range count.
//! 2. Range payload bytes: the first 27 u64 slots fit in the header
//!    message; anything more spills into one or more [`GpadlBody`]
//!    messages carrying the same `gpadl_id`.
//! 3. The host acknowledges with `GpadlCreated`, matched by
//!    `gpadl_id`.
//!
//! For a typical single-buffer GPADL the range payload is:
//!
//! ```text
//! [GpaRange { len, offset }] [pfn0] [pfn1] ... [pfnN]
//! ```
//!
//! where `len = total bytes`, `offset = 0`, and `pfnI = gpa_of_page_I >> 12`.
use crate::connection;
use crate::connection::await_response;
use crate::connection::exchange_message;
use crate::connection::ConnectionState;
use crate::connection::MessagePump;
use crate::connection::OfferCollector;
use crate::error::Error;
use crate::error::Result;
use crate::hvsock;
use crate::hvsock::ConnectResultHandler;
use crate::hvsock::HandlerSink;
use crate::hypercalls::post_message;
use crate::hypercalls::HvCtx;
use crate::hypercalls::HvEvent;
use crate::hypercalls::HypercallTrait;
use crate::interrupt::SimpPump;
use crate::message;
use crate::message::encode_to_vec;
use crate::message::CompletionKey;
use crate::message::CompletionTable;
use crate::message::MessageSink;
use crate::message::SlotState;
use crate::protocol;
use crate::protocol::ChannelId;
use crate::protocol::GpaRange;
use crate::protocol::GpadlBody;
use crate::protocol::GpadlCreated;
use crate::protocol::GpadlHeader;
use crate::protocol::GpadlId;
use crate::protocol::GpadlTeardown;
use crate::protocol::MessageType;
use crate::protocol::HV_PAGE_SIZE;
use crate::protocol::MAX_MESSAGE_SIZE;
use crate::state;
use crate::state::IdCounter;
use crate::state::VmbusState;
use crate::synic::synic_pages;
use crate::wire;
use crate::wire::Wire;
use vstd::prelude::*;

verus! {

broadcast use crate::hypercalls::group_ran;

/// Bytes of range payload that fit inside a single [`GpadlHeader`]
/// message (after the `MessageHeader` and `GpadlHeader` fixed fields),
/// rounded down to a multiple of 8 so we never split a u64 slot.
pub const HEADER_RANGE_CAPACITY_BYTES: usize = (MAX_MESSAGE_SIZE - 8 - 12) / 8 * 8;

/// Bytes of range payload that fit inside a single [`GpadlBody`]
/// continuation message, rounded down to a multiple of 8.
pub const BODY_RANGE_CAPACITY_BYTES: usize = (MAX_MESSAGE_SIZE - 8 - 8) / 8 * 8;

/// Handle returned by [`establish_gpadl_with`] and consumed by
/// [`teardown_gpadl_with`].
#[derive(Copy, Clone, Debug, Eq, PartialEq, Structural)]
pub struct GpadlHandle {
    pub channel_id: ChannelId,
    pub gpadl_id: GpadlId,
}

impl GpadlHandle {
    /// Return the underlying [`GpadlId`].
    pub fn id(&self) -> (r: GpadlId)
        ensures
            r == self.gpadl_id,
    {
        self.gpadl_id
    }

    /// Return the underlying [`ChannelId`].
    pub fn channel_id(&self) -> (r: ChannelId)
        ensures
            r == self.channel_id,
    {
        self.channel_id
    }
}

/// Number of continuation messages for `n` bytes of range payload: what
/// the header does not hold, in pieces of a body's capacity.
pub open spec fn body_count(n: int) -> int {
    if n <= 216 {
        0
    } else {
        (n - 216 + 223) / 224
    }
}

/// Number of [`GpadlBody`] continuation messages required to carry
/// `range_payload_bytes` of range payload after the initial
/// [`GpadlHeader`] message.
pub fn body_count_for_bytes(range_payload_bytes: usize) -> (r: usize)
    ensures
        r == body_count(range_payload_bytes as int),
{
    if range_payload_bytes <= HEADER_RANGE_CAPACITY_BYTES {
        0
    } else {
        let rest = range_payload_bytes - HEADER_RANGE_CAPACITY_BYTES;
        proof {
            let cap = BODY_RANGE_CAPACITY_BYTES;
            assert(rest / cap == rest / 224 && rest % cap == rest % 224) by (nonlinear_arith)
                requires
                    cap == 224,
            ;
        }
        if rest % BODY_RANGE_CAPACITY_BYTES == 0 {
            rest / BODY_RANGE_CAPACITY_BYTES
        } else {
            rest / BODY_RANGE_CAPACITY_BYTES + 1
        }
    }
}

/// Compute how many `GpadlBody` messages are needed to describe `pages`
/// PFNs for a single contiguous range after the initial header message.
///
/// Prefer [`body_count_for_bytes`] for new code.
pub fn body_count_for(pages: usize) -> (r: usize)
    requires
        8 + 8 * pages <= usize::MAX,
    ensures
        r == body_count(8 + 8 * pages),
{
    // A single-range payload is 8 bytes (GpaRange) + pages * 8.
    body_count_for_bytes(8 + pages * 8)
}

/// The range payload for one contiguous buffer.
pub open spec fn single_range(total_bytes: u32, pfns: Seq<u64>) -> Seq<u8> {
    (GpaRange { byte_count: total_bytes, byte_offset: 0 }).wire() + wire::u64s(pfns)
}

/// Build the range payload for a single contiguous page-aligned buffer
/// of `total_bytes` covered by `pfns`.
///
/// Layout:
///
/// ```text
/// [GpaRange { len: total_bytes, offset: 0 }] [pfn0] [pfn1] ... [pfnN-1]
/// ```
///
/// Returns a `Vec<u8>` of size `8 + pfns.len() * 8`.
pub fn build_single_range_payload(total_bytes: u32, pfns: &[u64]) -> (r: Vec<u8>)
    ensures
        r@ == single_range(total_bytes, pfns@),
        r@.len() == 8 + 8 * pfns@.len(),
{
    let range = GpaRange { byte_count: total_bytes, byte_offset: 0 };
    let mut buf = range.as_bytes();
    wire::write_u64s(pfns, &mut buf);
    proof {
        range.lemma_wire_len();
        wire::lemma_u64s_len(pfns@);
    }
    buf
}

/// Encoded GPADL exchange: the header message plus zero or more body
/// messages, ready to be posted with [`crate::hypercalls::post_message`].
pub struct GpadlMessages {
    /// One entry per vmbus message; each is a pre-encoded byte buffer
    /// starting with a `MessageHeader`. Length is at most
    /// `MAX_MESSAGE_SIZE`.
    pub messages: Vec<Vec<u8>>,
}

impl GpadlMessages {
    /// The bytes of the messages.
    pub open spec fn bytes(&self) -> Seq<Seq<u8>> {
        Seq::new(self.messages@.len(), |i: int| self.messages@[i]@)
    }

    /// Number of messages that will be posted.
    pub fn len(&self) -> (r: usize)
        ensures
            r == self.bytes().len(),
    {
        self.messages.len()
    }

    /// Whether the exchange is empty (never a valid GPADL).
    pub fn is_empty(&self) -> (r: bool)
        ensures
            r == (self.bytes().len() == 0),
    {
        self.messages.len() == 0
    }
}

/// The part of the range payload that message number `i` carries: the
/// header's share first, then a body's share each.
pub open spec fn share(payload: Seq<u8>, i: int) -> Seq<u8> {
    let from = if i == 0 {
        0
    } else {
        216 + 224 * (i - 1)
    };
    let to = 216 + 224 * i;
    payload.subrange(
        from,
        if to <= payload.len() {
            to
        } else {
            payload.len() as int
        },
    )
}

/// Message number `i` of the exchange.
pub open spec fn gpadl_message(
    channel_id: ChannelId,
    gpadl_id: GpadlId,
    range_count: u16,
    payload: Seq<u8>,
    i: int,
) -> Seq<u8> {
    if i == 0 {
        protocol::message_bytes(
            GpadlHeader { channel_id, gpadl_id, len: payload.len() as u16, count: range_count },
        ) + share(payload, 0)
    } else {
        protocol::message_bytes(GpadlBody { rsvd: 0, gpadl_id }) + share(payload, i)
    }
}

/// All messages of the exchange.
pub open spec fn gpadl_messages(
    channel_id: ChannelId,
    gpadl_id: GpadlId,
    range_count: u16,
    payload: Seq<u8>,
) -> Seq<Seq<u8>> {
    Seq::new(
        (1 + body_count(payload.len() as int)) as nat,
        |i: int| gpadl_message(channel_id, gpadl_id, range_count, payload, i),
    )
}

/// Encode the `GpadlHeader` + `GpadlBody` chain for a GPADL carrying a
/// single contiguous range payload.
///
/// The `range_payload` slice is exactly the bytes returned by
/// [`build_single_range_payload`] (or equivalent for multi-range). Its
/// length has to fit in the header's length field.
pub fn encode_gpadl_messages(
    channel_id: ChannelId,
    gpadl_id: GpadlId,
    range_count: u16,
    range_payload: &[u8],
) -> (r: GpadlMessages)
    requires
        range_payload@.len() <= u16::MAX,
    ensures
        r.bytes() == gpadl_messages(channel_id, gpadl_id, range_count, range_payload@),
{
    let mut messages: Vec<Vec<u8>> = Vec::new();
    let n = range_payload.len();
    let ghost all = gpadl_messages(channel_id, gpadl_id, range_count, range_payload@);

    // Header message.
    let header_take: usize = if n <= HEADER_RANGE_CAPACITY_BYTES {
        n
    } else {
        HEADER_RANGE_CAPACITY_BYTES
    };
    let header = GpadlHeader { channel_id, gpadl_id, len: n as u16, count: range_count };
    let mut msg = encode_to_vec(&header);
    msg.extend_from_slice(&range_payload[0..header_take]);
    proof {
        assert(msg@ =~= all[0]);
    }
    messages.push(msg);

    // Body messages.
    let mut cursor: usize = header_take;
    let ghost mut i: int = 1;
    while cursor < n
        invariant
            n == range_payload@.len(),
            n <= u16::MAX,
            all == gpadl_messages(channel_id, gpadl_id, range_count, range_payload@),
            i >= 1,
            messages@.len() == i,
            i <= all.len(),
            cursor == (if n <= 216 + 224 * (i - 1) {
                n as int
            } else {
                216 + 224 * (i - 1)
            }),
            cursor < n ==> i < all.len(),
            cursor >= n ==> i == all.len(),
            forall|j: int| 0 <= j < i ==> #[trigger] messages@[j]@ == all[j],
        decreases n - cursor,
    {
        let left = n - cursor;
        let take: usize = if left <= BODY_RANGE_CAPACITY_BYTES {
            left
        } else {
            BODY_RANGE_CAPACITY_BYTES
        };
        let body = GpadlBody { rsvd: 0, gpadl_id };
        let mut msg = encode_to_vec(&body);
        msg.extend_from_slice(&range_payload[cursor..cursor + take]);
        proof {
            assert(msg@ =~= all[i]);
        }
        messages.push(msg);
        cursor += take;
        proof {
            i = i + 1;
        }
    }
    let r = GpadlMessages { messages };
    proof {
        assert(r.bytes() =~= all);
    }
    r
}

/// The payload that a run of messages carries: what is left of each
/// behind its fixed part.
pub open spec fn carried(payload: Seq<u8>, n: int) -> Seq<u8>
    decreases n,
{
    if n <= 0 {
        Seq::empty()
    } else {
        carried(payload, n - 1) + share(payload, n - 1)
    }
}

/// Law: the messages carry the range payload whole, in order and nothing
/// else, and each of them fits in a vmbus message.
pub proof fn law_messages_carry_payload(
    channel_id: ChannelId,
    gpadl_id: GpadlId,
    range_count: u16,
    payload: Seq<u8>,
    i: int,
)
    requires
        payload.len() <= u16::MAX,
        0 <= i < gpadl_messages(channel_id, gpadl_id, range_count, payload).len(),
    ensures
        gpadl_messages(channel_id, gpadl_id, range_count, payload)[i].len() <= MAX_MESSAGE_SIZE,
        carried(
            payload,
            gpadl_messages(channel_id, gpadl_id, range_count, payload).len() as int,
        ) == payload,
{
    let h = GpadlHeader { channel_id, gpadl_id, len: payload.len() as u16, count: range_count };
    message::lemma_type_of_encoded(h, Seq::empty());
    message::lemma_type_of_encoded(GpadlBody { rsvd: 0, gpadl_id }, Seq::empty());
    let n = 1 + body_count(payload.len() as int);
    lemma_carried(payload, n);
    assert(payload.take(payload.len() as int) =~= payload);
}

proof fn lemma_carried(payload: Seq<u8>, n: int)
    requires
        0 <= n <= 1 + body_count(payload.len() as int),
    ensures
        carried(payload, n) == payload.take(
            if n == 0 {
                0
            } else if 216 + 224 * (n - 1) <= payload.len() {
                216 + 224 * (n - 1)
            } else {
                payload.len() as int
            },
        ),
    decreases n,
{
    if n > 0 {
        lemma_carried(payload, n - 1);
        let upto = if 216 + 224 * (n - 1) <= payload.len() {
            216 + 224 * (n - 1)
        } else {
            payload.len() as int
        };
        assert(carried(payload, n) =~= payload.take(upto));
    } else {
        assert(carried(payload, 0) =~= payload.take(0));
    }
}

// ---------------------------------------------------------------------------
// Creation and teardown
// ---------------------------------------------------------------------------
/// Why a region cannot be published, if it cannot.
pub open spec fn region_error(total_bytes: u32, pages: int) -> Option<Error> {
    if total_bytes % 4096 != 0 {
        Some(Error::Parse { ty: None, reason: "GPADL total_bytes must be page-aligned" })
    } else if pages != total_bytes / 4096 {
        Some(Error::Parse { ty: None, reason: "GPADL pfn count doesn't match total_bytes" })
    } else {
        None
    }
}

/// Whether a region can be published.
fn check_region(total_bytes: u32, pages: usize) -> (r: Result<()>)
    ensures
        match region_error(total_bytes, pages as int) {
            Some(e) => r == Err::<(), Error>(e),
            None => r is Ok,
        },
{
    if total_bytes as u64 % HV_PAGE_SIZE != 0 {
        return Err(Error::Parse { ty: None, reason: "GPADL total_bytes must be page-aligned" });
    }
    let expected_pfns = (total_bytes as u64 / HV_PAGE_SIZE) as usize;
    if pages != expected_pfns {
        return Err(
            Error::Parse { ty: None, reason: "GPADL pfn count doesn't match total_bytes" },
        );
    }
    Ok(())
}

/// `messages` were posted to `connection_id` in order, up to the first
/// that failed: `ev` is what happened and `r` how it ended.
pub open spec fn posted_all(
    connection_id: u32,
    messages: Seq<Seq<u8>>,
    ev: Seq<HvEvent>,
    r: Result<()>,
) -> bool {
    &&& ev.len() <= messages.len()
    &&& forall|i: int|
        0 <= i < ev.len() ==> connection::posts(#[trigger] ev[i], connection_id, messages[i])
    &&& forall|i: int|
        0 <= i < ev.len() - 1 ==> connection::post_result(#[trigger] ev[i]) is Ok
    &&& match r {
        Ok(_) => {
            &&& ev.len() == messages.len()
            &&& ev.len() > 0 ==> connection::post_result(ev.last()) is Ok
        },
        Err(e) => {
            &&& ev.len() > 0
            &&& connection::post_result(ev.last()) == Err::<(), Error>(e)
        },
    }
}

/// Post every message of an encoded exchange, in order.
fn post_all<C: HypercallTrait>(
    ctx: &mut HvCtx<C>,
    connection_id: u32,
    msgs: &GpadlMessages,
) -> (r: Result<()>)
    ensures
        old(ctx).ran_to(*final(ctx)),
        old(ctx).log().is_prefix_of(final(ctx).log()),
        posted_all(
            connection_id,
            msgs.bytes(),
            final(ctx).log().skip(old(ctx).log().len() as int),
            r,
        ),
{
    let ghost before = ctx.log();
    let mut i: usize = 0;
    proof {
        assert(before.skip(before.len() as int) =~= Seq::<HvEvent>::empty());
    }
    while i < msgs.messages.len()
        invariant
            i <= msgs.messages@.len(),
            before == old(ctx).log(),
            old(ctx).ran_to(*ctx),
            before.is_prefix_of(ctx.log()),
            ctx.log().len() == before.len() + i,
            forall|j: int|
                0 <= j < i ==> connection::posts(
                    #[trigger] ctx.log().skip(before.len() as int)[j],
                    connection_id,
                    msgs.bytes()[j],
                ) && connection::post_result(ctx.log().skip(before.len() as int)[j]) is Ok,
        decreases msgs.messages@.len() - i,
    {
        let ghost mid = ctx.log();
        let r = post_message(ctx, connection_id, msgs.messages[i].as_slice());
        proof {
            connection::lemma_one_more(mid, ctx.log());
            let ev = ctx.log().skip(before.len() as int);
            assert forall|j: int| 0 <= j < i implies #[trigger] ev[j] == mid.skip(
                before.len() as int,
            )[j] by {
                assert(ctx.log()[before.len() + j] == mid[before.len() + j]);
            }
            assert(ev[i as int] == ctx.log().last());
            assert forall|j: int| 0 <= j < before.len() implies before[j] == #[trigger] ctx.log()[j] by {
                assert(mid[j] == ctx.log()[j]);
            }
        }
        match r {
            Ok(()) => {},
            Err(e) => return Err(e),
        }
        i += 1;
    }
    Ok(())
}

/// Publish `pfns` describing a contiguous page-aligned buffer of
/// `total_bytes` to the host as a GPADL for `channel_id`.
///
/// `total_bytes` must be a multiple of the Hyper-V page size, and
/// `pfns.len()` must equal `total_bytes / HV_PAGE_SIZE`.
///
/// This posts every message in the encoded exchange but does **not**
/// wait for `GpadlCreated`.
pub fn establish_gpadl_partial<C: HypercallTrait>(
    ctx: &mut HvCtx<C>,
    connection: Option<ConnectionState>,
    channel_id: ChannelId,
    gpadl_id: GpadlId,
    total_bytes: u32,
    pfns: &[u64],
) -> (r: Result<GpadlHandle>)
    requires
        region_error(total_bytes, pfns@.len() as int) is None ==> 8 + 8 * pfns@.len() <= u16::MAX,
    ensures
        old(ctx).ran_to(*final(ctx)),
        old(ctx).log().is_prefix_of(final(ctx).log()),
        match region_error(total_bytes, pfns@.len() as int) {
            Some(e) => r == Err::<GpadlHandle, Error>(e) && final(ctx).log() == old(ctx).log(),
            None => match connection {
                None => r == Err::<GpadlHandle, Error>(Error::VersionMismatch) && final(ctx).log()
                    == old(ctx).log(),
                Some(state) => posted_all(
                    state.post_message_connection_id,
                    gpadl_messages(channel_id, gpadl_id, 1, single_range(total_bytes, pfns@)),
                    final(ctx).log().skip(old(ctx).log().len() as int),
                    match r {
                        Ok(_) => Ok(()),
                        Err(e) => Err(e),
                    },
                ) && (r matches Ok(h) ==> h == GpadlHandle { channel_id, gpadl_id }),
            },
        },
{
    match check_region(total_bytes, pfns.len()) {
        Ok(()) => {},
        Err(e) => return Err(e),
    }
    let payload = build_single_range_payload(total_bytes, pfns);
    let msgs = encode_gpadl_messages(channel_id, gpadl_id, 1, payload.as_slice());
    let conn_id = match connection_id_from_state(connection) {
        Ok(id) => id,
        Err(e) => return Err(e),
    };
    match post_all(ctx, conn_id, &msgs) {
        Ok(()) => Ok(GpadlHandle { channel_id, gpadl_id }),
        Err(e) => Err(e),
    }
}

/// Retrieve the currently negotiated post-message connection id, failing
/// if none has been negotiated yet.
pub fn connection_id_from_state(connection: Option<ConnectionState>) -> (r: Result<u32>)
    ensures
        r == match connection {
            Some(state) => Ok::<u32, Error>(state.post_message_connection_id),
            None => Err(Error::VersionMismatch),
        },
{
    match connection {
        Some(state) => Ok(state.post_message_connection_id),
        None => Err(Error::VersionMismatch),
    }
}

/// What the host's answer to a GPADL comes to.
pub open spec fn created_answer(
    reply: Result<Seq<u8>>,
    channel_id: ChannelId,
    gpadl_id: GpadlId,
) -> Result<GpadlHandle> {
    match reply {
        Err(e) => Err(e),
        Ok(bytes) => match message::parsed::<GpadlCreated>(bytes) {
            Err(e) => Err(e),
            Ok(created) => if created.status != 0 {
                Err(
                    Error::Parse {
                        ty: Some(MessageType(MessageType::GPADL_CREATED)),
                        reason: "host returned non-success GpadlCreated status",
                    },
                )
            } else {
                Ok(GpadlHandle { channel_id, gpadl_id })
            },
        },
    }
}

/// Publishing a region as `gpadl_id` went like this: its messages were
/// posted, then the page drained until the host answered.
pub open spec fn established(
    connection_id: u32,
    gpadl: GpadlHandle,
    payload: Seq<u8>,
    table: (Seq<SlotState>, Seq<SlotState>),
    ev: Seq<HvEvent>,
    r: Result<GpadlHandle>,
) -> bool {
    let messages = gpadl_messages(gpadl.channel_id, gpadl.gpadl_id, 1, payload);
    let key = CompletionKey::GpadlCreated(gpadl.gpadl_id);
    let waiting = message::registered(table.0, key);
    if ev.len() <= messages.len() {
        &&& r matches Err(e)
        &&& posted_all(connection_id, messages, ev, Err(e))
        &&& table.1 == waiting
    } else {
        &&& ev.len() == messages.len() + 1
        &&& posted_all(connection_id, messages, ev.drop_last(), Ok(()))
        &&& connection::awaited(
            ev.last(),
            key,
            table.0.len() as int,
            (waiting, table.1),
        )
        &&& r == created_answer(
            connection::reply_of(ev.last()),
            gpadl.channel_id,
            gpadl.gpadl_id,
        )
    }
}

/// Full `establish_gpadl`: posts the header/body chain and waits for
/// `GpadlCreated`.
pub fn establish_gpadl_with<C: HypercallTrait, P: MessagePump, S: MessageSink, H: ConnectResultHandler>(
    ctx: &mut HvCtx<C>,
    connection: Option<ConnectionState>,
    table: &mut CompletionTable,
    pump: &mut P,
    sink: &mut HandlerSink<S, H>,
    channel_id: ChannelId,
    gpadl_id: GpadlId,
    total_bytes: u32,
    pfns: &[u64],
) -> (r: Result<GpadlHandle>)
    requires
        region_error(total_bytes, pfns@.len() as int) is None ==> 8 + 8 * pfns@.len() <= u16::MAX,
    ensures
        old(ctx).ran_to(*final(ctx)),
        final(pump).source() == old(pump).source(),
        connection::drains_from(old(pump).source(), old(ctx).log(), final(ctx).log()),
        message::sink_after(
            *old(sink),
            connection::drained_in(final(ctx).log().skip(old(ctx).log().len() as int)),
            *final(sink),
        ),
        old(ctx).log().is_prefix_of(final(ctx).log()),
        match region_error(total_bytes, pfns@.len() as int) {
            Some(e) => {
                &&& r == Err::<GpadlHandle, Error>(e)
                &&& final(ctx).log() == old(ctx).log()
                &&& final(table)@ == old(table)@
            },
            None => match connection {
                None => {
                    &&& r == Err::<GpadlHandle, Error>(Error::VersionMismatch)
                    &&& final(ctx).log() == old(ctx).log()
                    &&& final(table)@ == message::registered(
                        old(table)@,
                        CompletionKey::GpadlCreated(gpadl_id),
                    )
                },
                Some(state) => established(
                    state.post_message_connection_id,
                    GpadlHandle { channel_id, gpadl_id },
                    single_range(total_bytes, pfns@),
                    (old(table)@, final(table)@),
                    final(ctx).log().skip(old(ctx).log().len() as int),
                    r,
                ),
            },
        },
{
    match check_region(total_bytes, pfns.len()) {
        Ok(()) => {},
        Err(e) => return Err(e),
    }
    let payload = build_single_range_payload(total_bytes, pfns);
    let msgs = encode_gpadl_messages(channel_id, gpadl_id, 1, payload.as_slice());
    let ghost before = ctx.log();
    let handle = table.register(CompletionKey::GpadlCreated(gpadl_id));
    let conn_id = match connection_id_from_state(connection) {
        Ok(id) => id,
        Err(e) => return Err(e),
    };
    let posted = post_all(ctx, conn_id, &msgs);
    let ghost mid = ctx.log();
    let ghost source = pump.source();
    proof {
        assert forall|i: int| before.len() <= i < mid.len() implies #[trigger]
            connection::from_slot(source, mid[i]) by {
            assert(mid.skip(before.len() as int)[i - before.len()] == mid[i]);
        }
        assert(mid.len() > before.len() ==> mid.skip(before.len() as int).last() == mid.last());
    }
    match posted {
        Ok(()) => {},
        Err(e) => return Err(e),
    }
    let reply = await_response(ctx, table, pump, sink, &handle);
    proof {
        connection::lemma_one_more(mid, ctx.log());
        connection::lemma_drains_from(source, before, mid, ctx.log());
        let ev = ctx.log().skip(before.len() as int);
        assert(ev.drop_last() =~= mid.skip(before.len() as int)) by {
            assert forall|i: int| 0 <= i < mid.len() implies mid[i] == #[trigger] ctx.log()[i] by {
                assert(ctx.log().drop_last()[i] == ctx.log()[i]);
            }
        }
        assert(ev.last() == ctx.log().last());
        assert forall|i: int| 0 <= i < before.len() implies before[i] == #[trigger] ctx.log()[i] by {
            assert(mid[i] == ctx.log()[i]);
        }
    }
    let bytes = match reply {
        Ok(bytes) => bytes,
        Err(e) => return Err(e),
    };
    let created: GpadlCreated = match message::parse(bytes.as_slice()) {
        Ok(created) => created,
        Err(e) => return Err(e),
    };
    if created.status != 0 {
        return Err(
            Error::Parse {
                ty: Some(MessageType(MessageType::GPADL_CREATED)),
                reason: "host returned non-success GpadlCreated status",
            },
        );
    }
    Ok(GpadlHandle { channel_id, gpadl_id })
}

/// Post `GpadlTeardown` for `handle` and wait for `GpadlTorndown`.
pub fn teardown_gpadl_with<C: HypercallTrait, P: MessagePump, S: MessageSink, H: ConnectResultHandler>(
    ctx: &mut HvCtx<C>,
    connection: Option<ConnectionState>,
    table: &mut CompletionTable,
    pump: &mut P,
    sink: &mut HandlerSink<S, H>,
    handle: GpadlHandle,
) -> (r: Result<()>)
    ensures
        old(ctx).ran_to(*final(ctx)),
        final(pump).source() == old(pump).source(),
        connection::drains_from(old(pump).source(), old(ctx).log(), final(ctx).log()),
        message::sink_after(
            *old(sink),
            connection::drained_in(final(ctx).log().skip(old(ctx).log().len() as int)),
            *final(sink),
        ),
        old(ctx).log().is_prefix_of(final(ctx).log()),
        match connection {
            None => {
                &&& r == Err::<(), Error>(Error::VersionMismatch)
                &&& final(ctx).log() == old(ctx).log()
                &&& final(table)@ == message::registered(
                    old(table)@,
                    CompletionKey::GpadlTorndown(handle.gpadl_id),
                )
            },
            Some(state) => connection::exchange(
                state.post_message_connection_id,
                protocol::message_bytes(
                    GpadlTeardown { channel_id: handle.channel_id, gpadl_id: handle.gpadl_id },
                ),
                CompletionKey::GpadlTorndown(handle.gpadl_id),
                (old(table)@, final(table)@),
                final(ctx).log().skip(old(ctx).log().len() as int),
                r,
            ),
        },
{
    let key = CompletionKey::GpadlTorndown(handle.gpadl_id);
    let conn_id = match connection_id_from_state(connection) {
        Ok(id) => id,
        Err(e) => {
            let _ = table.register(key);
            return Err(e);
        },
    };
    let msg = GpadlTeardown { channel_id: handle.channel_id, gpadl_id: handle.gpadl_id };
    let payload = encode_to_vec(&msg);
    exchange_message(ctx, table, pump, sink, conn_id, key, payload.as_slice())
}

/// Allocate a fresh `GpadlId`.
pub fn allocate_gpadl_id(ids: &mut IdCounter) -> (r: GpadlId)
    ensures
        r.0 == old(ids).next,
        final(ids).next == state::nth_id(old(ids).next, 1),
{
    GpadlId(ids.allocate())
}

/// Publishing a region over the guest's state went like this.
pub open spec fn made<H: ConnectResultHandler>(
    state: (VmbusState<H>, VmbusState<H>),
    log: (Seq<HvEvent>, Seq<HvEvent>),
    channel_id: ChannelId,
    total_bytes: u32,
    pfns: Seq<u64>,
    r: Result<GpadlHandle>,
) -> bool {
    &&& log.0.is_prefix_of(log.1)
    &&& connection::drains_simp(state.0.synic, log)
    &&& hvsock::handler_after(
        state.0.handler,
        connection::drained_in(log.1.skip(log.0.len() as int)),
        state.1.handler,
    )
    &&& state.1.connection == state.0.connection
    &&& state.1.synic == state.0.synic
    &&& state.1.open_ids.next == state.0.open_ids.next
    &&& if state.0.synic is None {
        &&& r == Err::<GpadlHandle, Error>(Error::VersionMismatch)
        &&& log.1 == log.0
        &&& state.1 == state.0
    } else {
        let gpadl_id = GpadlId(state.0.gpadl_ids.next);
        &&& state.1.gpadl_ids.next == state::nth_id(state.0.gpadl_ids.next, 1)
        &&& match region_error(total_bytes, pfns.len() as int) {
            Some(e) => {
                &&& r == Err::<GpadlHandle, Error>(e)
                &&& log.1 == log.0
                &&& state.1.table@ == state.0.table@
            },
            None => match state.0.connection {
                None => {
                    &&& r == Err::<GpadlHandle, Error>(Error::VersionMismatch)
                    &&& log.1 == log.0
                    &&& state.1.table@ == message::registered(
                        state.0.table@,
                        CompletionKey::GpadlCreated(gpadl_id),
                    )
                },
                Some(agreed) => established(
                    agreed.post_message_connection_id,
                    GpadlHandle { channel_id, gpadl_id },
                    single_range(total_bytes, pfns),
                    (state.0.table@, state.1.table@),
                    log.1.skip(log.0.len() as int),
                    r,
                ),
            },
        }
    }
}

/// [`establish_gpadl_with`] using the guest's own completion table and a
/// SIMP-page-backed pump.
pub fn establish_gpadl<C: HypercallTrait, H: ConnectResultHandler>(
    ctx: &mut HvCtx<C>,
    state: &mut VmbusState<H>,
    channel_id: ChannelId,
    total_bytes: u32,
    pfns: &[u64],
) -> (r: Result<GpadlHandle>)
    requires
        region_error(total_bytes, pfns@.len() as int) is None ==> 8 + 8 * pfns@.len() <= u16::MAX,
    ensures
        old(ctx).ran_to(*final(ctx)),
        made(
            (*old(state), *final(state)),
            (old(ctx).log(), final(ctx).log()),
            channel_id,
            total_bytes,
            pfns@,
            r,
        ),
{
    let pages = match synic_pages(&state.synic) {
        Some(pages) => pages,
        None => return Err(Error::VersionMismatch),
    };
    let mut pump = SimpPump::new(pages.simp_gpa);
    let mut sink = HandlerSink { inner: OfferCollector::default(), handler: state.handler.take() };
    let ghost first = sink;
    let gpadl_id = allocate_gpadl_id(&mut state.gpadl_ids);
    let r = establish_gpadl_with(
        ctx,
        state.connection,
        &mut state.table,
        &mut pump,
        &mut sink,
        channel_id,
        gpadl_id,
        total_bytes,
        pfns,
    );
    proof {
        let ev = ctx.log().skip(old(ctx).log().len() as int);
        hvsock::law_handler_sees(first, connection::drained_in(ev), sink);
    }
    state.handler = sink.handler;
    r
}

/// Tearing a region down over the guest's state went like this.
pub open spec fn torn_down<H: ConnectResultHandler>(
    state: (VmbusState<H>, VmbusState<H>),
    log: (Seq<HvEvent>, Seq<HvEvent>),
    handle: GpadlHandle,
    r: Result<()>,
) -> bool {
    &&& log.0.is_prefix_of(log.1)
    &&& connection::drains_simp(state.0.synic, log)
    &&& hvsock::handler_after(
        state.0.handler,
        connection::drained_in(log.1.skip(log.0.len() as int)),
        state.1.handler,
    )
    &&& connection::same_setup(state.0, state.1)
    &&& state.1.connection == state.0.connection
    &&& if state.0.synic is None {
        &&& r == Err::<(), Error>(Error::VersionMismatch)
        &&& log.1 == log.0
        &&& state.1 == state.0
    } else {
        match state.0.connection {
            None => {
                &&& r == Err::<(), Error>(Error::VersionMismatch)
                &&& log.1 == log.0
                &&& state.1.table@ == message::registered(
                    state.0.table@,
                    CompletionKey::GpadlTorndown(handle.gpadl_id),
                )
            },
            Some(agreed) => connection::exchange(
                agreed.post_message_connection_id,
                protocol::message_bytes(
                    GpadlTeardown { channel_id: handle.channel_id, gpadl_id: handle.gpadl_id },
                ),
                CompletionKey::GpadlTorndown(handle.gpadl_id),
                (state.0.table@, state.1.table@),
                log.1.skip(log.0.len() as int),
                r,
            ),
        }
    }
}

/// [`teardown_gpadl_with`] using the guest's own completion table and a
/// SIMP-page-backed pump.
pub fn teardown_gpadl<C: HypercallTrait, H: ConnectResultHandler>(
    ctx: &mut HvCtx<C>,
    state: &mut VmbusState<H>,
    handle: GpadlHandle,
) -> (r: Result<()>)
    ensures
        old(ctx).ran_to(*final(ctx)),
        torn_down(
            (*old(state), *final(state)),
            (old(ctx).log(), final(ctx).log()),
            handle,
            r,
        ),
{
    let pages = match synic_pages(&state.synic) {
        Some(pages) => pages,
        None => return Err(Error::VersionMismatch),
    };
    let mut pump = SimpPump::new(pages.simp_gpa);
    let mut sink = HandlerSink { inner: OfferCollector::default(), handler: state.handler.take() };
    let ghost first = sink;
    let r = teardown_gpadl_with(
        ctx,
        state.connection,
        &mut state.table,
        &mut pump,
        &mut sink,
        handle,
    );
    proof {
        let ev = ctx.log().skip(old(ctx).log().len() as int);
        hvsock::law_handler_sees(first, connection::drained_in(ev), sink);
    }
    state.handler = sink.handler;
    r
}

} // verus!
