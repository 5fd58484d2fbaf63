//! Raw VMBus primitives for fuzzing the host-side vmbus implementation.
//!
//! Everything else in this crate is a *well-behaved* VMBus client: it
//! encodes typed messages, keys completions off ids it allocated, and
//! keeps its own ring bookkeeping consistent with what it tells the
//! host. That is the wrong shape for a fuzzer, which needs to hand the
//! host arbitrary bytes on both the message and the ring path and then
//! observe what comes back. This module is the escape hatch.
//!
//! # Bounds
//!
//! The fuzzer drives this code with untrusted input, so every entry
//! point here is bounded and total:
//!
//! * Message payloads are truncated to [`MAX_MESSAGE_SIZE`] rather than
//!   rejected, so a fuzzed length can't fail the call before the host
//!   ever sees the bytes.
//! * Every wait is bounded by an explicit poll count and returns
//!   `Ok(None)` on expiry: a fuzzed request that the host chooses not to
//!   answer stalls one testcase, never the campaign.
//! * A host reply that doesn't parse is returned as raw bytes (see
//!   [`drain_once_capture`]) instead of propagating an error out of a
//!   half-consumed SIMP slot.
use crate::channel;
use crate::channel::close_channel;
use crate::channel::open_channel;
use crate::channel::Channel;
use crate::connection;
use crate::connection::initial_connection_id;
use crate::connection::ConnectionState;
use crate::connection::OfferCollector;
use crate::devices::link::Link;
use crate::devices::netvsp;
use crate::devices::netvsp::list_page_frames;
use crate::devices::netvsp::RingRegion;
use crate::devices::netvsp::RING_DATA_BYTES;
use crate::devices::netvsp::RING_DATA_PAGES;
use crate::devices::netvsp::RING_REGION_BYTES;
use crate::devices::netvsp::RING_TOTAL_PAGES;
use crate::error::Error;
use crate::error::Result;
use crate::gpadl;
use crate::gpadl::establish_gpadl;
use crate::gpadl::teardown_gpadl;
use crate::gpadl::GpadlHandle;
use crate::hvsock;
use crate::hvsock::ConnectResultHandler;
use crate::hvsock::HandlerSink;
use crate::hypercalls;
use crate::hypercalls::post_message;
use crate::hypercalls::spin_once;
use crate::hypercalls::HvCtx;
use crate::hypercalls::HvEvent;
use crate::hypercalls::HypercallTrait;
use crate::interrupt;
use crate::interrupt::drain_once_capture;
use crate::interrupt::vmbus_slot;
use crate::message;
use crate::message::CompletionTable;
use crate::message::MessageSink;
use crate::message::SlotState;
use crate::packet;
use crate::packet::InPacket;
use crate::packet::OutPacket;
use crate::protocol::OfferChannel;
use crate::protocol::PacketFlags;
use crate::protocol::PacketType;
use crate::protocol::Version;
use crate::protocol::MAX_MESSAGE_SIZE;
use crate::protocol::VMBUS_CONNECTION_ID_MODERN;
use crate::ring::RecvRing;
use crate::ring::RingMem;
use crate::ring::SendRing;
use crate::state::VmbusState;
use crate::synic::synic_pages;
use vstd::prelude::*;

verus! {

broadcast use crate::hypercalls::group_ran;

/// Size of the wire [`crate::protocol::PacketDescriptor`], and hence
/// the length of the caller-supplied descriptor accepted by
/// [`RawChannel::send_raw_packet`].
pub const PACKET_DESCRIPTOR_SIZE: usize = 16;

/// Default bounded poll count for [`post_raw_message_wait`].
///
/// Much shorter than [`crate::interrupt::SimpPump::DEFAULT_MAX_RETRIES`]
/// (100M): most fuzzed messages draw no reply at all, so this bound is
/// hit on the majority of calls and dominates testcase latency. ~1M
/// spin-loops is tens of milliseconds: long enough for a host that *is*
/// going to answer, short enough to keep throughput up.
pub const DEFAULT_WAIT_POLLS: usize = 1_000_000;

// ---------------------------------------------------------------------------
// Channel messages
// ---------------------------------------------------------------------------
/// The connection id that [`resolve_connection_id`] picks.
pub open spec fn resolved_id(connection: Option<ConnectionState>, requested: u64) -> u32 {
    if requested != 0 {
        (requested % 0x100_0000) as u32
    } else {
        match connection {
            Some(agreed) => agreed.post_message_connection_id,
            None => VMBUS_CONNECTION_ID_MODERN,
        }
    }
}

/// Resolve a fuzzer-supplied connection id to the one to post on.
///
/// * `0` means "whatever the real client would use": the id the host
///   handed back during negotiation, falling back to the default for the
///   newest version we would ask for when nothing has been negotiated
///   yet.
/// * Anything else is taken literally, masked to the 24 bits the
///   hypervisor actually uses for a connection id. Letting the fuzzer
///   pick here is deliberate: the host must cope with posts on a
///   connection id the guest never negotiated.
pub fn resolve_connection_id(connection: &Option<ConnectionState>, requested: u64) -> (r: u32)
    ensures
        r == resolved_id(*connection, requested),
{
    if requested != 0 {
        return (requested % 0x100_0000) as u32;
    }
    match connection {
        Some(agreed) => agreed.post_message_connection_id,
        None => {
            let ladder = Version::NEGOTIATION_LADDER;
            initial_connection_id(ladder[0])
        },
    }
}

/// Post `payload` verbatim as a VMBus channel message.
///
/// No encoding, no validation, no completion registration: the bytes
/// are whatever the fuzzer produced, starting at what the host will
/// read as a [`crate::protocol::MessageHeader`]. Payloads longer than
/// [`MAX_MESSAGE_SIZE`] are truncated rather than rejected so the host
/// still gets to parse the leading bytes.
pub fn post_raw_message<C: HypercallTrait>(
    ctx: &mut HvCtx<C>,
    connection_id: u32,
    payload: &[u8],
) -> (r: Result<()>)
    ensures
        old(ctx).ran_to(*final(ctx)),
        hypercalls::one_more(old(ctx).log(), final(ctx).log()),
        final(ctx).log().last().is_post(connection_id, hypercalls::truncated(payload@), r),
{
    let len = if payload.len() < MAX_MESSAGE_SIZE {
        payload.len()
    } else {
        MAX_MESSAGE_SIZE
    };
    let sent = &payload[0..len];
    proof {
        assert(sent@ =~= hypercalls::truncated(payload@));
    }
    post_message(ctx, connection_id, sent)
}

/// Draining the slot at `gpa` at most `polls` times made the events `ev`,
/// brought the completion table from the first state to the second, and
/// ended in `r`: one capture after the other, until one fails or brings a
/// message.
pub open spec fn capture_run(
    gpa: u64,
    polls: nat,
    table: (Seq<SlotState>, Seq<SlotState>),
    ev: Seq<HvEvent>,
    r: Result<Option<Seq<u8>>>,
) -> bool
    decreases polls,
{
    if polls == 0 {
        &&& ev.len() == 0
        &&& table.1 == table.0
        &&& r == Ok::<Option<Seq<u8>>, Error>(None)
    } else {
        let bytes = ev[0]->SlotRead_bytes;
        let k = interrupt::capture_len(bytes);
        let next = interrupt::drained_table(table.0, bytes);
        &&& 1 <= k <= ev.len()
        &&& exists|d: Result<Option<Seq<u8>>>| #[trigger]
            interrupt::captured(gpa, (table.0, next), ev.take(k), d) && match d {
                Ok(None) => capture_run(
                    gpa,
                    (polls - 1) as nat,
                    (next, table.1),
                    ev.skip(k),
                    r,
                ),
                _ => {
                    &&& ev.len() == k
                    &&& table.1 == next
                    &&& r == d
                },
            }
    }
}

/// A capture that found nothing, and the rest of the run.
proof fn lemma_capture_again(
    gpa: u64,
    polls: nat,
    table: (Seq<SlotState>, Seq<SlotState>),
    ev: Seq<HvEvent>,
    r: Result<Option<Seq<u8>>>,
)
    requires
        polls > 0,
        1 <= interrupt::capture_len(ev[0]->SlotRead_bytes) <= ev.len(),
        interrupt::captured(
            gpa,
            (table.0, interrupt::drained_table(table.0, ev[0]->SlotRead_bytes)),
            ev.take(interrupt::capture_len(ev[0]->SlotRead_bytes)),
            Ok(None),
        ),
        capture_run(
            gpa,
            (polls - 1) as nat,
            (interrupt::drained_table(table.0, ev[0]->SlotRead_bytes), table.1),
            ev.skip(interrupt::capture_len(ev[0]->SlotRead_bytes)),
            r,
        ),
    ensures
        capture_run(gpa, polls, table, ev, r),
{
}

/// A capture that decided the run.
proof fn lemma_capture_ends(
    gpa: u64,
    polls: nat,
    table: (Seq<SlotState>, Seq<SlotState>),
    ev: Seq<HvEvent>,
    r: Result<Option<Seq<u8>>>,
)
    requires
        polls > 0,
        interrupt::captured(gpa, table, ev, r),
        r != Ok::<Option<Seq<u8>>, Error>(None),
    ensures
        capture_run(gpa, polls, table, ev, r),
{
    let k = interrupt::capture_len(ev[0]->SlotRead_bytes);
    assert(ev.take(k) =~= ev);
    assert(interrupt::captured(
        gpa,
        (table.0, interrupt::drained_table(table.0, ev[0]->SlotRead_bytes)),
        ev.take(k),
        r,
    ));
}

/// The parts of the state that draining leaves alone, and the connect
/// result handler, which sees the connect results that were drained.
pub open spec fn drained_state<H: ConnectResultHandler>(
    state: (VmbusState<H>, VmbusState<H>),
    log: (Seq<HvEvent>, Seq<HvEvent>),
) -> bool {
    &&& connection::same_setup(state.0, state.1)
    &&& state.1.connection == state.0.connection
    &&& hvsock::handler_after(
        state.0.handler,
        connection::routed_in(log.1.skip(log.0.len() as int)),
        state.1.handler,
    )
}

/// Drain the slot until a message arrives or `max_polls` is exhausted.
fn capture_until<C: HypercallTrait, S: MessageSink, H: ConnectResultHandler>(
    ctx: &mut HvCtx<C>,
    table: &mut CompletionTable,
    sink: &mut HandlerSink<S, H>,
    simp_gpa: u64,
    max_polls: usize,
) -> (r: Result<Option<Vec<u8>>>)
    ensures
        old(ctx).ran_to(*final(ctx)),
        old(ctx).log().is_prefix_of(final(ctx).log()),
        capture_run(
            interrupt::slot_gpa(simp_gpa),
            max_polls as nat,
            (old(table)@, final(table)@),
            final(ctx).log().skip(old(ctx).log().len() as int),
            interrupt::captured_bytes(r),
        ),
        message::sink_after(
            *old(sink),
            connection::routed_in(final(ctx).log().skip(old(ctx).log().len() as int)),
            *final(sink),
        ),
{
    let ghost before = ctx.log();
    let ghost gpa = interrupt::slot_gpa(simp_gpa);
    let ghost t0 = table@;
    let ghost s0 = *sink;
    let slot = vmbus_slot(simp_gpa);
    let mut i: usize = 0;
    proof {
        assert(ctx.log().skip(before.len() as int) =~= Seq::<HvEvent>::empty());
        assert forall|rest: Seq<HvEvent>| #[trigger] (Seq::<HvEvent>::empty() + rest) == rest by {
            assert(Seq::<HvEvent>::empty() + rest =~= rest);
        }
    }
    while i < max_polls
        invariant
            old(ctx).ran_to(*ctx),
            i <= max_polls,
            slot == gpa,
            before == old(ctx).log(),
            before.is_prefix_of(ctx.log()),
            gpa == interrupt::slot_gpa(simp_gpa),
            t0 == old(table)@,
            s0 == *old(sink),
            message::sink_after(
                s0,
                connection::routed_in(ctx.log().skip(before.len() as int)),
                *sink,
            ),
            forall|rest: Seq<HvEvent>, r: Result<Option<Seq<u8>>>, tf: Seq<SlotState>| #[trigger]
                capture_run(gpa, (max_polls - i) as nat, (table@, tf), rest, r)
                    ==> capture_run(
                    gpa,
                    max_polls as nat,
                    (t0, tf),
                    ctx.log().skip(before.len() as int) + rest,
                    r,
                ),
        decreases max_polls - i,
    {
        let ghost log1 = ctx.log();
        let ghost t1 = table@;
        let ghost s1 = *sink;
        let ghost left = (max_polls - i) as nat;
        let got = drain_once_capture(ctx, slot, table, sink);
        let ghost ev = ctx.log().skip(log1.len() as int);
        let ghost bytes = ev[0]->SlotRead_bytes;
        proof {
            assert(ev[0] == ctx.log()[log1.len() as int]);
            assert(ctx.log().skip(before.len() as int) =~= log1.skip(before.len() as int) + ev);
            assert forall|j: int| 0 <= j < before.len() implies before[j] == #[trigger] ctx.log()[j] by {
                assert(log1[j] == ctx.log()[j]);
            }
            let seen = connection::routed_in(log1.skip(before.len() as int));
            interrupt::lemma_capture_routes(
                gpa,
                (t1, table@),
                ev,
                interrupt::captured_bytes(got),
            );
            connection::lemma_routed_in(log1.skip(before.len() as int), ev);
            match interrupt::drain_message(bytes) {
                Some(payload) => {
                    message::lemma_route_push(t0, s0, seen, s1, payload, *sink);
                    assert(seen + connection::routed_in(ev) =~= seen.push(payload));
                },
                None => {
                    assert(seen + connection::routed_in(ev) =~= seen);
                },
            }
        }
        match got {
            Ok(Some(message)) => {
                proof {
                    let r: Result<Option<Seq<u8>>> = Ok(Some(message@));
                    lemma_capture_ends(gpa, left, (t1, table@), ev, r);
                }
                return Ok(Some(message));
            },
            Ok(None) => {},
            Err(e) => {
                proof {
                    let r: Result<Option<Seq<u8>>> = Err(e);
                    lemma_capture_ends(gpa, left, (t1, table@), ev, r);
                }
                return Err(e);
            },
        }
        spin_once();
        i += 1;
        proof {
            assert forall|rest: Seq<HvEvent>, r: Result<Option<Seq<u8>>>, tf: Seq<SlotState>|
                #[trigger] capture_run(
                gpa,
                (max_polls - i) as nat,
                (table@, tf),
                rest,
                r,
            ) implies capture_run(
                gpa,
                max_polls as nat,
                (t0, tf),
                ctx.log().skip(before.len() as int) + rest,
                r,
            ) by {
                let all = ev + rest;
                let k = interrupt::capture_len(bytes);
                assert(all[0] == ev[0]);
                assert(all.take(k) =~= ev);
                assert(all.skip(k) =~= rest);
                assert((left - 1) as nat == (max_polls - i) as nat);
                lemma_capture_again(gpa, left, (t1, tf), all, r);
                assert(log1.skip(before.len() as int) + all =~= ctx.log().skip(
                    before.len() as int,
                ) + rest);
            }
        }
    }
    proof {
        let r: Result<Option<Seq<u8>>> = Ok(None);
        assert(capture_run(
            gpa,
            (max_polls - i) as nat,
            (table@, table@),
            Seq::<HvEvent>::empty(),
            r,
        ));
        assert(ctx.log().skip(before.len() as int) + Seq::<HvEvent>::empty() =~= ctx.log().skip(
            before.len() as int,
        ));
    }
    Ok(None)
}

/// Drain the SIMP page until a message arrives or `max_polls` is
/// exhausted, returning the raw bytes of the first message seen.
pub fn poll_capture<C: HypercallTrait, H: ConnectResultHandler>(
    ctx: &mut HvCtx<C>,
    state: &mut VmbusState<H>,
    max_polls: usize,
) -> (r: Result<Option<Vec<u8>>>)
    ensures
        old(ctx).ran_to(*final(ctx)),
        old(ctx).log().is_prefix_of(final(ctx).log()),
        drained_state((*old(state), *final(state)), (old(ctx).log(), final(ctx).log())),
        match old(state).synic {
            None => {
                &&& r matches Err(e)
                &&& e == Error::VersionMismatch
                &&& final(ctx).log() == old(ctx).log()
                &&& final(state).table@ == old(state).table@
            },
            Some(pages) => capture_run(
                interrupt::slot_gpa(pages.simp_gpa),
                max_polls as nat,
                (old(state).table@, final(state).table@),
                final(ctx).log().skip(old(ctx).log().len() as int),
                interrupt::captured_bytes(r),
            ),
        },
{
    let pages = match synic_pages(&state.synic) {
        Some(pages) => pages,
        None => return Err(Error::VersionMismatch),
    };
    let mut sink = HandlerSink { inner: OfferCollector::default(), handler: state.handler.take() };
    let ghost first = sink;
    let r = capture_until(ctx, &mut state.table, &mut sink, pages.simp_gpa, max_polls);
    proof {
        let ev = ctx.log().skip(old(ctx).log().len() as int);
        hvsock::law_handler_sees(first, connection::routed_in(ev), sink);
    }
    state.handler = sink.handler;
    r
}

/// Posting raw bytes and waiting for a reply went like this.
pub open spec fn waited<H: ConnectResultHandler>(
    state: (VmbusState<H>, VmbusState<H>),
    log: (Seq<HvEvent>, Seq<HvEvent>),
    connection_id: u32,
    payload: Seq<u8>,
    polls: nat,
    r: Result<Option<Seq<u8>>>,
) -> bool {
    let ev = log.1.skip(log.0.len() as int);
    &&& log.0.is_prefix_of(log.1)
    &&& drained_state(state, log)
    &&& ev.len() >= 1
    &&& ev[0].is_post(
        connection_id,
        hypercalls::truncated(payload),
        connection::post_result(ev[0]),
    )
    &&& match connection::post_result(ev[0]) {
        Err(e) => {
            &&& r == Err::<Option<Seq<u8>>, Error>(e)
            &&& ev.len() == 1
            &&& state.1.table@ == state.0.table@
        },
        Ok(_) => match state.0.synic {
            None => {
                &&& r == Err::<Option<Seq<u8>>, Error>(Error::VersionMismatch)
                &&& ev.len() == 1
                &&& state.1.table@ == state.0.table@
            },
            Some(pages) => capture_run(
                interrupt::slot_gpa(pages.simp_gpa),
                polls,
                (state.0.table@, state.1.table@),
                ev.skip(1),
                r,
            ),
        },
    }
}

/// Post `payload` verbatim, then drain the message page for up to
/// `max_polls` iterations and return the first message the host sends
/// back.
///
/// Returns `Ok(None)` if nothing arrived within the bound, which is
/// the common case: most channel messages are fire-and-forget and the
/// host answers only a handful of request types.
///
/// Messages are still routed through the completion table on the way
/// past, so a reply that a *different* part of the guest was waiting on
/// is not swallowed by this call.
pub fn post_raw_message_wait<C: HypercallTrait, H: ConnectResultHandler>(
    ctx: &mut HvCtx<C>,
    state: &mut VmbusState<H>,
    connection_id: u32,
    payload: &[u8],
    max_polls: usize,
) -> (r: Result<Option<Vec<u8>>>)
    ensures
        old(ctx).ran_to(*final(ctx)),
        waited(
            (*old(state), *final(state)),
            (old(ctx).log(), final(ctx).log()),
            connection_id,
            payload@,
            max_polls as nat,
            interrupt::captured_bytes(r),
        ),
{
    let ghost before = ctx.log();
    let posted = post_raw_message(ctx, connection_id, payload);
    let ghost mid = ctx.log();
    proof {
        reveal_with_fuel(connection::routed_in, 2);
        connection::lemma_one_more(before, mid);
        assert(connection::routed_in(mid.skip(before.len() as int)) =~= Seq::<Seq<u8>>::empty());
    }
    match posted {
        Ok(()) => {},
        Err(e) => return Err(e),
    }
    let r = poll_capture(ctx, state, max_polls);
    proof {
        let ev = ctx.log().skip(before.len() as int);
        assert(ev[0] == mid.last()) by {
            assert(ctx.log()[before.len() as int] == mid[before.len() as int]);
        }
        assert(ev.skip(1) =~= ctx.log().skip(mid.len() as int));
        assert(ev =~= seq![ev[0]] + ev.skip(1));
        connection::lemma_routed_in(seq![ev[0]], ev.skip(1));
        assert(connection::routed_in(ev) =~= connection::routed_in(ev.skip(1)));
        assert forall|i: int| 0 <= i < before.len() implies before[i] == #[trigger] ctx.log()[i] by {
            assert(mid[i] == ctx.log()[i]);
        }
    }
    r
}

/// Draining up to `polls` messages from the slot at `gpa` made the events
/// `ev`, brought the completion table from the first state to the second,
/// and ended in `r`: captures, one after the other, until one finds
/// nothing or fails; `r` counts the messages.
pub open spec fn drain_run(
    gpa: u64,
    polls: nat,
    table: (Seq<SlotState>, Seq<SlotState>),
    ev: Seq<HvEvent>,
    r: Result<nat>,
) -> bool
    decreases polls,
{
    if polls == 0 {
        &&& ev.len() == 0
        &&& table.1 == table.0
        &&& r == Ok::<nat, Error>(0)
    } else {
        exists|k: int, mid: Seq<SlotState>, d: Result<Option<Seq<u8>>>| #[trigger]
            capture_run(gpa, 1, (table.0, mid), ev.take(k), d) && 0 <= k <= ev.len() && match d {
                Err(e) => {
                    &&& k == ev.len()
                    &&& table.1 == mid
                    &&& r == Err::<nat, Error>(e)
                },
                Ok(None) => {
                    &&& k == ev.len()
                    &&& table.1 == mid
                    &&& r == Ok::<nat, Error>(0)
                },
                Ok(Some(_)) => (r matches Ok(n) ==> n >= 1) && drain_run(
                    gpa,
                    (polls - 1) as nat,
                    (mid, table.1),
                    ev.skip(k),
                    one_less(r),
                ),
            }
    }
}

/// One message less.
pub open spec fn one_less(r: Result<nat>) -> Result<nat> {
    match r {
        Ok(n) => Ok((n - 1) as nat),
        Err(e) => Err(e),
    }
}

/// `n` messages, and then those of `rest`.
pub open spec fn counted(n: nat, rest: Result<nat>) -> Result<nat> {
    match rest {
        Ok(m) => Ok(n + m),
        Err(e) => Err(e),
    }
}

/// A message, and the rest of the run.
proof fn lemma_drain_again(
    gpa: u64,
    polls: nat,
    table: (Seq<SlotState>, Seq<SlotState>),
    ev: Seq<HvEvent>,
    k: int,
    mid: Seq<SlotState>,
    message: Seq<u8>,
    rest: Result<nat>,
)
    requires
        polls > 0,
        0 <= k <= ev.len(),
        capture_run(gpa, 1, (table.0, mid), ev.take(k), Ok(Some(message))),
        drain_run(gpa, (polls - 1) as nat, (mid, table.1), ev.skip(k), rest),
    ensures
        drain_run(gpa, polls, table, ev, counted(1, rest)),
{
    assert(one_less(counted(1, rest)) == rest);
}

/// A capture that decided the run.
proof fn lemma_drain_ends(
    gpa: u64,
    polls: nat,
    table: (Seq<SlotState>, Seq<SlotState>),
    ev: Seq<HvEvent>,
    d: Result<Option<Seq<u8>>>,
    r: Result<nat>,
)
    requires
        polls > 0,
        capture_run(gpa, 1, table, ev, d),
        match d {
            Err(e) => r == Err::<nat, Error>(e),
            Ok(got) => got is None && r == Ok::<nat, Error>(0),
        },
    ensures
        drain_run(gpa, polls, table, ev, r),
{
    let k = ev.len() as int;
    assert(ev.take(k) =~= ev);
    assert(capture_run(gpa, 1, (table.0, table.1), ev.take(k), d));
}

/// Draining pending messages over the guest's state went like this.
pub open spec fn pending_drained<H: ConnectResultHandler>(
    state: (VmbusState<H>, VmbusState<H>),
    log: (Seq<HvEvent>, Seq<HvEvent>),
    polls: nat,
    r: Result<nat>,
) -> bool {
    &&& log.0.is_prefix_of(log.1)
    &&& drained_state(state, log)
    &&& if polls == 0 {
        &&& r == Ok::<nat, Error>(0)
        &&& log.1 == log.0
        &&& state.1.table@ == state.0.table@
    } else {
        match state.0.synic {
            None => {
                &&& r == Err::<nat, Error>(Error::VersionMismatch)
                &&& log.1 == log.0
                &&& state.1.table@ == state.0.table@
            },
            Some(pages) => drain_run(
                interrupt::slot_gpa(pages.simp_gpa),
                polls,
                (state.0.table@, state.1.table@),
                log.1.skip(log.0.len() as int),
                r,
            ),
        }
    }
}

/// Drain and discard up to `max_polls` pending messages.
///
/// Used at testcase boundaries: a testcase that provoked replies
/// nobody consumed would otherwise leave them in the SIMP slot, where
/// the *next* testcase's wait would pick them up and report them as its
/// own response.
///
/// Returns the number of messages drained.
pub fn drain_pending<C: HypercallTrait, H: ConnectResultHandler>(
    ctx: &mut HvCtx<C>,
    state: &mut VmbusState<H>,
    max_polls: usize,
) -> (r: Result<usize>)
    ensures
        old(ctx).ran_to(*final(ctx)),
        r matches Ok(n) ==> n <= max_polls,
        pending_drained(
            (*old(state), *final(state)),
            (old(ctx).log(), final(ctx).log()),
            max_polls as nat,
            match r {
                Ok(n) => Ok(n as nat),
                Err(e) => Err(e),
            },
        ),
{
    let ghost before = ctx.log();
    let ghost t0 = state.table@;
    let ghost synic = state.synic;
    let ghost gpa = interrupt::slot_gpa(synic->0.simp_gpa);
    let mut drained: usize = 0;
    proof {
        assert(ctx.log().skip(before.len() as int) =~= Seq::<HvEvent>::empty());
        assert forall|rest: Seq<HvEvent>| #[trigger] (Seq::<HvEvent>::empty() + rest) == rest by {
            assert(Seq::<HvEvent>::empty() + rest =~= rest);
        }
        assert forall|r: Result<nat>| counted(0, r) == r by {}
    }
    while drained < max_polls
        invariant
            old(ctx).ran_to(*ctx),
            drained <= max_polls,
            before == old(ctx).log(),
            before.is_prefix_of(ctx.log()),
            drained_state((*old(state), *state), (before, ctx.log())),
            synic == old(state).synic,
            gpa == interrupt::slot_gpa(synic->0.simp_gpa),
            t0 == old(state).table@,
            synic is None ==> drained == 0,
            drained == 0 ==> ctx.log() == before && state.table@ == t0,
            synic is Some ==> forall|rest: Seq<HvEvent>, r: Result<nat>, tf: Seq<SlotState>|
                #[trigger] drain_run(gpa, (max_polls - drained) as nat, (state.table@, tf), rest, r)
                    ==> drain_run(
                    gpa,
                    max_polls as nat,
                    (t0, tf),
                    ctx.log().skip(before.len() as int) + rest,
                    counted(drained as nat, r),
                ),
        decreases max_polls - drained,
    {
        let ghost log1 = ctx.log();
        let ghost t1 = state.table@;
        let ghost state1 = *state;
        let ghost left = (max_polls - drained) as nat;
        let got = poll_capture(ctx, state, 1);
        let ghost ev = ctx.log().skip(log1.len() as int);
        let ghost d = interrupt::captured_bytes(got);
        proof {
            assert(ctx.log().skip(before.len() as int) =~= log1.skip(before.len() as int) + ev);
            assert forall|j: int| 0 <= j < before.len() implies before[j] == #[trigger] ctx.log()[j] by {
                assert(log1[j] == ctx.log()[j]);
            }
            connection::lemma_routed_in(log1.skip(before.len() as int), ev);
            hvsock::lemma_handler_after(
                old(state).handler,
                connection::routed_in(log1.skip(before.len() as int)),
                state1.handler,
                connection::routed_in(ev),
                state.handler,
            );
        }
        match got {
            Ok(Some(message)) => {
                proof {
                    assert forall|rest: Seq<HvEvent>, r: Result<nat>, tf: Seq<SlotState>|
                        #[trigger] drain_run(
                        gpa,
                        (max_polls - (drained + 1)) as nat,
                        (state.table@, tf),
                        rest,
                        r,
                    ) implies drain_run(
                        gpa,
                        max_polls as nat,
                        (t0, tf),
                        ctx.log().skip(before.len() as int) + rest,
                        counted((drained + 1) as nat, r),
                    ) by {
                        let all = ev + rest;
                        let k = ev.len() as int;
                        assert(all.take(k) =~= ev);
                        assert(all.skip(k) =~= rest);
                        assert((left - 1) as nat == (max_polls - (drained + 1)) as nat);
                        lemma_drain_again(gpa, left, (t1, tf), all, k, state.table@, message@, r);
                        assert(log1.skip(before.len() as int) + all =~= ctx.log().skip(
                            before.len() as int,
                        ) + rest);
                        assert(counted(drained as nat, counted(1, r)) == counted(
                            (drained + 1) as nat,
                            r,
                        ));
                    }
                }
                drained += 1;
            },
            Ok(None) => {
                proof {
                    let r: Result<nat> = Ok(0);
                    lemma_drain_ends(gpa, left, (t1, state.table@), ev, d, r);
                    assert(counted(drained as nat, r) == Ok::<nat, Error>(drained as nat));
                }
                return Ok(drained);
            },
            Err(e) => {
                proof {
                    if synic is Some {
                        let r: Result<nat> = Err(e);
                        lemma_drain_ends(gpa, left, (t1, state.table@), ev, d, r);
                        assert(counted(drained as nat, r) == r);
                    }
                }
                return Err(e);
            },
        }
    }
    proof {
        if max_polls > 0 {
            let r: Result<nat> = Ok(0);
            assert(drain_run(
                gpa,
                (max_polls - drained) as nat,
                (state.table@, state.table@),
                Seq::<HvEvent>::empty(),
                r,
            ));
            assert(ctx.log().skip(before.len() as int) + Seq::<HvEvent>::empty()
                =~= ctx.log().skip(before.len() as int));
            assert(counted(drained as nat, r) == Ok::<nat, Error>(drained as nat));
        }
    }
    Ok(drained)
}

/// Relative ids (`child_relid`) of the offers the host has delivered.
///
/// Seeds the fuzzer's argument pool with ids the host actually knows
/// about: without it essentially every relid the fuzzer invents is
/// rejected before reaching any interesting host code.
pub fn relids(offers: &[OfferChannel]) -> (r: Vec<u32>)
    ensures
        r@ == offers@.map_values(|o: OfferChannel| o.channel_id.0),
{
    let mut ids: Vec<u32> = Vec::new();
    let mut i: usize = 0;
    while i < offers.len()
        invariant
            i <= offers@.len(),
            ids@ == offers@.take(i as int).map_values(|o: OfferChannel| o.channel_id.0),
        decreases offers@.len() - i,
    {
        ids.push(offers[i].channel_id.0);
        i += 1;
        proof {
            assert(ids@ =~= offers@.take(i as int).map_values(|o: OfferChannel| o.channel_id.0));
        }
    }
    proof {
        assert(offers@.take(i as int) =~= offers@);
    }
    ids
}

// ---------------------------------------------------------------------------
// Ring traffic
// ---------------------------------------------------------------------------
/// A VMBus channel opened purely so the fuzzer has a ring to write to.
///
/// Unlike the device drivers in [`crate::devices`], this performs no
/// protocol negotiation after the channel opens: it exists to carry
/// arbitrary ring packets at whatever device is on the other end.
pub struct RawChannel<M: RingMem> {
    pub link: Link<M>,
    /// Guest-physical address of the region that backs both rings. The
    /// platform may free it once [`Self::close`] has returned; before
    /// that, the host may still hold the GPADL.
    pub base_gpa: u64,
    pub next_transaction_id: u64,
}

/// What opening a channel with a ring GPADL in place came to: where the
/// host refuses, the GPADL is torn down again.
pub open spec fn opened_or_undone<H: ConnectResultHandler>(
    state: (VmbusState<H>, VmbusState<H>),
    log: (Seq<HvEvent>, Seq<HvEvent>),
    offer: OfferChannel,
    ring: GpadlHandle,
    r: Result<Channel>,
) -> bool {
    exists|mid: VmbusState<H>, mid_log: Seq<HvEvent>| #[trigger]
        channel::opened_over(
            (state.0, mid),
            (log.0, mid_log),
            offer.channel_id,
            ring,
            RING_DATA_PAGES as u32,
            offer.connection_id,
            (offer.channel_id.0 % 65536) as u16,
            r,
        ) && match r {
            Ok(_) => state.1 == mid && log.1 == mid_log,
            Err(_) => exists|t: Result<()>| #[trigger]
                gpadl::torn_down((mid, state.1), (mid_log, log.1), ring, t),
        }
}

/// Opening a raw channel over the guest's state went like this: the
/// region is published first, then the channel opened.
pub open spec fn raw_opened<M: RingMem, H: ConnectResultHandler>(
    state: (VmbusState<H>, VmbusState<H>),
    log: (Seq<HvEvent>, Seq<HvEvent>),
    offer: OfferChannel,
    region: Option<RingRegion<M>>,
    r: Result<RawChannel<M>>,
) -> bool {
    match region {
        None => {
            &&& r == Err::<RawChannel<M>, Error>(
                Error::Parse { ty: None, reason: "raw channel ring allocation failed" },
            )
            &&& log.1 == log.0
            &&& state.1 == state.0
        },
        Some(g) => exists|mid: VmbusState<H>, mid_log: Seq<HvEvent>, ring: Result<GpadlHandle>|
            #[trigger]
            gpadl::made(
                (state.0, mid),
                (log.0, mid_log),
                offer.channel_id,
                RING_REGION_BYTES as u32,
                netvsp::page_frames(g.base_gpa, 18),
                ring,
            ) && match ring {
                Err(e) => {
                    &&& state.1 == mid
                    &&& log.1 == mid_log
                    &&& r == Err::<RawChannel<M>, Error>(e)
                },
                Ok(handle) => {
                    &&& opened_or_undone(
                        (mid, state.1),
                        (mid_log, log.1),
                        offer,
                        handle,
                        match r {
                            Ok(raw) => Ok(raw.link.channel),
                            Err(e) => Err(e),
                        },
                    )
                    &&& r matches Ok(raw) ==> raw.fresh(g)
                },
            },
    }
}

/// Publishing, and what came after it.
proof fn lemma_raw_opened<M: RingMem, H: ConnectResultHandler>(
    state: (VmbusState<H>, VmbusState<H>),
    log: (Seq<HvEvent>, Seq<HvEvent>),
    offer: OfferChannel,
    region: Option<RingRegion<M>>,
    mid: VmbusState<H>,
    mid_log: Seq<HvEvent>,
    ring: Result<GpadlHandle>,
    r: Result<RawChannel<M>>,
)
    requires
        region is Some,
        gpadl::made(
            (state.0, mid),
            (log.0, mid_log),
            offer.channel_id,
            RING_REGION_BYTES as u32,
            netvsp::page_frames(region->0.base_gpa, 18),
            ring,
        ),
        match ring {
            Err(e) => {
                &&& state.1 == mid
                &&& log.1 == mid_log
                &&& r == Err::<RawChannel<M>, Error>(e)
            },
            Ok(handle) => {
                &&& opened_or_undone(
                    (mid, state.1),
                    (mid_log, log.1),
                    offer,
                    handle,
                    match r {
                        Ok(raw) => Ok(raw.link.channel),
                        Err(e) => Err(e),
                    },
                )
                &&& r matches Ok(raw) ==> raw.fresh(region->0)
            },
        },
    ensures
        raw_opened(state, log, offer, region, r),
{
}

/// A refusal, and the teardown after it.
proof fn lemma_undone<H: ConnectResultHandler>(
    state: (VmbusState<H>, VmbusState<H>),
    log: (Seq<HvEvent>, Seq<HvEvent>),
    offer: OfferChannel,
    ring: GpadlHandle,
    mid: VmbusState<H>,
    mid_log: Seq<HvEvent>,
    e: Error,
    t: Result<()>,
)
    requires
        channel::opened_over(
            (state.0, mid),
            (log.0, mid_log),
            offer.channel_id,
            ring,
            RING_DATA_PAGES as u32,
            offer.connection_id,
            (offer.channel_id.0 % 65536) as u16,
            Err(e),
        ),
        gpadl::torn_down((mid, state.1), (mid_log, log.1), ring, t),
    ensures
        opened_or_undone(state, log, offer, ring, Err(e)),
{
}

impl<M: RingMem> RawChannel<M> {
    /// Both halves of the ring have the shape of a ring.
    pub open spec fn wf(&self) -> bool {
        self.link.wf()
    }

    /// Open `offer` with a fresh pair of rings in a region that the
    /// platform allocated (`None` where it could not).
    ///
    /// Requires [`crate::init`] to have completed. The channel is
    /// opened with the offer's own connection id / channel id, exactly
    /// as a real driver would, so that only the *traffic* is fuzzed
    /// and the channel itself stays usable across a testcase.
    ///
    /// Where the host refuses to open the channel, the GPADL is released
    /// before this returns: the pages it names may then be freed, and the
    /// host keeps no mapping to memory the allocator is free to hand out
    /// again.
    pub fn open<C: HypercallTrait, H: ConnectResultHandler>(
        ctx: &mut HvCtx<C>,
        state: &mut VmbusState<H>,
        offer: &OfferChannel,
        region: Option<RingRegion<M>>,
    ) -> (r: Result<Self>)
        requires
            region matches Some(g) ==> g.send_mem.state().wf() && g.recv_mem.state().wf()
                && g.base_gpa + RING_REGION_BYTES <= u64::MAX,
        ensures
            old(ctx).ran_to(*final(ctx)),
            raw_opened(
                (*old(state), *final(state)),
                (old(ctx).log(), final(ctx).log()),
                *offer,
                region,
                r,
            ),
            r matches Ok(raw) ==> raw.wf(),
    {
        let region = match region {
            Some(region) => region,
            None => return Err(
                Error::Parse { ty: None, reason: "raw channel ring allocation failed" },
            ),
        };
        let ghost g = region;
        let pfns = list_page_frames(region.base_gpa, RING_TOTAL_PAGES);
        let ring = establish_gpadl(
            ctx,
            state,
            offer.channel_id,
            RING_REGION_BYTES as u32,
            pfns.as_slice(),
        );
        let ghost mid = *state;
        let ghost mid_log = ctx.log();
        proof {
            assert(gpadl::made(
                (*old(state), mid),
                (old(ctx).log(), mid_log),
                offer.channel_id,
                RING_REGION_BYTES as u32,
                netvsp::page_frames(region.base_gpa, 18),
                ring,
            ));
        }
        let handle = match ring {
            Ok(handle) => handle,
            Err(e) => {
                proof {
                    lemma_raw_opened(
                        (*old(state), *state),
                        (old(ctx).log(), ctx.log()),
                        *offer,
                        Some(g),
                        mid,
                        mid_log,
                        ring,
                        Err(e),
                    );
                }
                return Err(e);
            },
        };
        let opened = open_channel(
            ctx,
            state,
            offer,
            handle,
            RING_DATA_PAGES as u32,
            offer.connection_id,
            (offer.channel_id.0 % 65536) as u16,
        );
        let ghost opened_state = *state;
        let ghost opened_log = ctx.log();
        proof {
            assert(channel::opened_over(
                (mid, opened_state),
                (mid_log, opened_log),
                offer.channel_id,
                handle,
                RING_DATA_PAGES as u32,
                offer.connection_id,
                (offer.channel_id.0 % 65536) as u16,
                opened,
            ));
        }
        match opened {
            Ok(channel) => {
                let raw = RawChannel {
                    link: Link {
                        channel,
                        send: SendRing::new(region.send_mem),
                        recv: RecvRing::new(region.recv_mem),
                    },
                    base_gpa: region.base_gpa,
                    next_transaction_id: 1,
                };
                proof {
                    assert(opened_or_undone(
                        (mid, *state),
                        (mid_log, ctx.log()),
                        *offer,
                        handle,
                        Ok(raw.link.channel),
                    ));
                    lemma_raw_opened(
                        (*old(state), *state),
                        (old(ctx).log(), ctx.log()),
                        *offer,
                        Some(g),
                        mid,
                        mid_log,
                        ring,
                        Ok(raw),
                    );
                }
                Ok(raw)
            },
            Err(e) => {
                let undone = teardown_gpadl(ctx, state, handle);
                proof {
                    assert(gpadl::torn_down(
                        (opened_state, *state),
                        (opened_log, ctx.log()),
                        handle,
                        undone,
                    ));
                    lemma_undone(
                        (mid, *state),
                        (mid_log, ctx.log()),
                        *offer,
                        handle,
                        opened_state,
                        opened_log,
                        e,
                        undone,
                    );
                    lemma_raw_opened(
                        (*old(state), *state),
                        (old(ctx).log(), ctx.log()),
                        *offer,
                        Some(g),
                        mid,
                        mid_log,
                        ring,
                        Err(e),
                    );
                }
                Err(e)
            },
        }
    }

    /// A channel just opened over `g`.
    pub open spec fn fresh(self, g: RingRegion<M>) -> bool {
        &&& self.wf()
        &&& self.link.send.made_over(g.send_mem)
        &&& self.link.recv.made_over(g.recv_mem)
        &&& self.base_gpa == g.base_gpa
        &&& self.next_transaction_id == 1
    }

    /// The underlying channel handle.
    pub fn channel(&self) -> (r: &Channel)
        ensures
            *r == self.link.channel,
    {
        &self.link.channel
    }

    /// Allocate the next transaction id for a packet that requests a
    /// completion.
    pub fn next_transaction_id(&mut self) -> (r: u64)
        ensures
            r == old(self).next_transaction_id,
            *final(self) == (RawChannel {
                next_transaction_id: following(old(self).next_transaction_id),
                ..*old(self)
            }),
    {
        let id = self.next_transaction_id;
        self.next_transaction_id = id.wrapping_add(1);
        id
    }

    /// Sending `p` went like this: it is written, and the host signalled
    /// where it has to be.
    pub open spec fn sent(
        self,
        p: OutPacket,
        log: (Seq<HvEvent>, Seq<HvEvent>),
        next: Self,
        r: Result<()>,
    ) -> bool {
        &&& next.base_gpa == self.base_gpa
        &&& next.link.channel == self.link.channel
        &&& next.link.recv == self.link.recv
        &&& exists|w: Result<bool>| #[trigger]
            self.link.send.wrote(p, next.link.send, w) && match w {
                Err(e) => r == Err::<(), Error>(e) && log.1 == log.0,
                Ok(false) => r == Ok::<(), Error>(()) && log.1 == log.0,
                Ok(true) => self.link.channel.signalled(log, r),
            }
    }

    /// Send a well-formed packet of arbitrary `packet_type`, letting
    /// the ring compute the descriptor's geometry.
    ///
    /// The fuzzer picks the packet type and payload, but the descriptor
    /// stays self-consistent so the host parses it and reaches the
    /// type-specific handling.
    pub fn send_packet<C: HypercallTrait>(
        &mut self,
        ctx: &mut HvCtx<C>,
        packet_type: PacketType,
        payload: &[u8],
        flags: PacketFlags,
    ) -> (r: Result<()>)
        requires
            old(self).wf(),
        ensures
            old(ctx).ran_to(*final(ctx)),
            final(self).wf(),
            final(self).next_transaction_id == following(old(self).next_transaction_id),
            old(self).sent(
                (OutPacket {
                    packet_type,
                    ext_header: Seq::empty(),
                    payload: payload@,
                    flags,
                    transaction_id: old(self).next_transaction_id,
                    verbatim: None,
                }),
                (old(ctx).log(), final(ctx).log()),
                *final(self),
                r,
            ),
    {
        let transaction_id = self.next_transaction_id();
        let none: [u8; 0] = [];
        proof {
            assert(none@ =~= Seq::<u8>::empty());
        }
        let written = self.link.send.write_packet(
            packet_type,
            none.as_slice(),
            payload,
            flags,
            transaction_id,
        );
        proof {
            assert(old(self).link.send.wrote(
                (OutPacket {
                    packet_type,
                    ext_header: Seq::empty(),
                    payload: payload@,
                    flags,
                    transaction_id,
                    verbatim: None,
                }),
                self.link.send,
                written,
            ));
        }
        match written {
            Ok(true) => self.link.channel.signal(ctx),
            Ok(false) => Ok(()),
            Err(e) => Err(e),
        }
    }

    /// Send a packet whose descriptor bytes come straight from the
    /// fuzzer.
    ///
    /// `descriptor` is written to the ring verbatim, so `length8` /
    /// `data_offset8` / `flags` can describe a packet that has nothing to
    /// do with the bytes that follow it. See
    /// [`SendRing::write_raw_packet`] for why the guest's own ring
    /// accounting ignores those fields.
    pub fn send_raw_packet<C: HypercallTrait>(
        &mut self,
        ctx: &mut HvCtx<C>,
        descriptor: &[u8; PACKET_DESCRIPTOR_SIZE],
        payload: &[u8],
    ) -> (r: Result<()>)
        requires
            old(self).wf(),
        ensures
            old(ctx).ran_to(*final(ctx)),
            final(self).wf(),
            final(self).next_transaction_id == old(self).next_transaction_id,
            old(self).sent(
                packet::raw_packet(descriptor@, payload@),
                (old(ctx).log(), final(ctx).log()),
                *final(self),
                r,
            ),
    {
        let written = self.link.send.write_raw_packet(descriptor, payload);
        proof {
            assert(old(self).link.send.wrote(
                packet::raw_packet(descriptor@, payload@),
                self.link.send,
                written,
            ));
        }
        match written {
            Ok(true) => self.link.channel.signal(ctx),
            Ok(false) => Ok(()),
            Err(e) => Err(e),
        }
    }

    /// Drain up to `max_packets` inbound packets, discarding them, and
    /// tell how many there were.
    ///
    /// The fuzzer never inspects what the device sends back, but it
    /// must keep reading: an undrained recv ring fills up, and the
    /// host then stops making forward progress on the send side too.
    pub fn drain_recv(&mut self, max_packets: usize) -> (count: usize)
        requires
            old(self).wf(),
        ensures
            final(self).wf(),
            final(self).link.channel == old(self).link.channel,
            final(self).link.send == old(self).link.send,
            final(self).base_gpa == old(self).base_gpa,
            final(self).next_transaction_id == old(self).next_transaction_id,
            exists|outs: Seq<Result<InPacket>>| #[trigger]
                old(self).link.recv.read_run(RING_DATA_BYTES as int, outs, final(self).link.recv)
                    && drained(outs, max_packets as nat, count as nat),
    {
        let mut buf: Vec<u8> = vec![0u8; RING_DATA_BYTES];
        let ghost mut outs: Seq<Result<InPacket>> = Seq::empty();
        let mut count: usize = 0;
        proof {
            assert(old(self).link.recv.read_run(RING_DATA_BYTES as int, outs, self.link.recv));
        }
        while count < max_packets
            invariant
                count <= max_packets,
                self.wf(),
                buf@.len() == RING_DATA_BYTES,
                self.link.channel == old(self).link.channel,
                self.link.send == old(self).link.send,
                self.base_gpa == old(self).base_gpa,
                self.next_transaction_id == old(self).next_transaction_id,
                old(self).link.recv.read_run(RING_DATA_BYTES as int, outs, self.link.recv),
                outs.len() == count,
                forall|i: int| 0 <= i < outs.len() ==> (#[trigger] outs[i]) is Ok,
            decreases max_packets - count,
        {
            let ghost before = self.link.recv;
            let ok = self.discard_one(buf.as_mut_slice());
            proof {
                let out = choose|out: Result<InPacket>|
                    #[trigger] before.read_as(RING_DATA_BYTES as int, self.link.recv, out) && ok
                        == (out is Ok);
                old(self).link.recv.lemma_read_run_push(
                    RING_DATA_BYTES as int,
                    outs,
                    before,
                    out,
                    self.link.recv,
                );
                outs = outs.push(out);
            }
            // A packet that makes no sense does not move the read index:
            // stop rather than spin on it.
            if !ok {
                proof {
                    assert(drained(outs, max_packets as nat, count as nat));
                }
                return count;
            }
            count += 1;
        }
        proof {
            assert(drained(outs, max_packets as nat, count as nat));
        }
        count
    }

    /// Read one packet into `buf` and forget it; tell whether there was
    /// one.
    fn discard_one(&mut self, buf: &mut [u8]) -> (ok: bool)
        requires
            old(self).wf(),
        ensures
            final(self).wf(),
            final(buf)@.len() == old(buf)@.len(),
            final(self).link.channel == old(self).link.channel,
            final(self).link.send == old(self).link.send,
            final(self).base_gpa == old(self).base_gpa,
            final(self).next_transaction_id == old(self).next_transaction_id,
            exists|out: Result<InPacket>| #[trigger]
                old(self).link.recv.read_as(old(buf)@.len() as int, final(self).link.recv, out)
                    && ok == (out is Ok),
    {
        let ghost len = buf@.len() as int;
        match self.link.recv.read(buf) {
            Ok(pkt) => {
                proof {
                    let out: Result<InPacket> = Ok(
                        InPacket {
                            descriptor: pkt.descriptor,
                            ext_header: buf@.take(pkt.ext_header_len as int),
                            payload: pkt.payload@,
                        },
                    );
                    assert(old(self).link.recv.read_as(len, self.link.recv, out));
                }
                true
            },
            Err(e) => {
                proof {
                    let out: Result<InPacket> = Err(e);
                    assert(old(self).link.recv.read_as(len, self.link.recv, out));
                }
                false
            },
        }
    }

    /// Close the channel and tear down its ring GPADL. The platform may
    /// free the ring memory once this has returned.
    ///
    /// Ordering matters: the host must stop touching the ring (close) and
    /// give up its mapping (teardown) before the pages go back to the
    /// allocator, or the next `open` over the same PFNs is refused. The
    /// teardown is tried even where closing failed.
    pub fn close<C: HypercallTrait, H: ConnectResultHandler>(
        self,
        ctx: &mut HvCtx<C>,
        state: &mut VmbusState<H>,
    ) -> (r: Result<()>)
        ensures
            old(ctx).ran_to(*final(ctx)),
            raw_closed(
                (*old(state), *final(state)),
                (old(ctx).log(), final(ctx).log()),
                self.link.channel,
                r,
            ),
    {
        let channel = self.link.channel;
        let ring_gpadl = channel.ring_gpadl();
        let closed = close_channel(ctx, state, channel);
        let ghost mid_log = ctx.log();
        proof {
            assert(channel::closed_over(
                old(state).connection,
                (old(ctx).log(), mid_log),
                self.link.channel,
                closed,
            ));
        }
        let torn = teardown_gpadl(ctx, state, ring_gpadl);
        proof {
            assert(gpadl::torn_down(
                (*old(state), *state),
                (mid_log, ctx.log()),
                self.link.channel.ring_gpadl,
                torn,
            ));
            lemma_raw_closed(
                (*old(state), *state),
                (old(ctx).log(), ctx.log()),
                self.link.channel,
                mid_log,
                closed,
                torn,
            );
        }
        closed
    }
}

/// The transaction id that follows `id`.
pub open spec fn following(id: u64) -> u64 {
    if id == u64::MAX {
        0
    } else {
        (id + 1) as u64
    }
}

/// Of `outs`, the first `count` brought packets, and then there was no
/// more to read or `limit` was reached.
pub open spec fn drained(outs: Seq<Result<InPacket>>, limit: nat, count: nat) -> bool {
    &&& count <= outs.len()
    &&& forall|i: int| 0 <= i < count ==> (#[trigger] outs[i]) is Ok
    &&& if count < limit {
        outs.len() == count + 1 && outs.last() is Err
    } else {
        outs.len() == count && count == limit
    }
}

/// Closing a raw channel went like this: the channel is closed, and then
/// its ring GPADL torn down, whatever came of the first.
pub open spec fn raw_closed<H: ConnectResultHandler>(
    state: (VmbusState<H>, VmbusState<H>),
    log: (Seq<HvEvent>, Seq<HvEvent>),
    channel: Channel,
    r: Result<()>,
) -> bool {
    exists|mid_log: Seq<HvEvent>, torn: Result<()>|
        channel::closed_over(state.0.connection, (log.0, mid_log), channel, r)
            && #[trigger] gpadl::torn_down(
            (state.0, state.1),
            (mid_log, log.1),
            channel.ring_gpadl,
            torn,
        )
}

/// A close, and the teardown after it.
proof fn lemma_raw_closed<H: ConnectResultHandler>(
    state: (VmbusState<H>, VmbusState<H>),
    log: (Seq<HvEvent>, Seq<HvEvent>),
    channel: Channel,
    mid_log: Seq<HvEvent>,
    r: Result<()>,
    torn: Result<()>,
)
    requires
        channel::closed_over(state.0.connection, (log.0, mid_log), channel, r),
        gpadl::torn_down((state.0, state.1), (mid_log, log.1), channel.ring_gpadl, torn),
    ensures
        raw_closed(state, log, channel, r),
{
}

} // verus!
