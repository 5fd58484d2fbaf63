//! SINT2 message-page draining.
//!
//! When the host has a vmbus message ready for us, the hypervisor writes
//! it into the SIMP page (slot [`crate::synic::VMBUS_SINT`], byte offset
//! `256 * VMBUS_SINT` into the page). This module implements the
//! guest-side drain; [`SimpPump`] polls the slot.
//!
//! # Drain protocol
//!
//! 1. Read the slot's header.
//! 2. If the type is `HvMessageTypeNone (0)`, no message: stop.
//! 3. Otherwise the payload is a vmbus message; hand it off to
//!    [`crate::message::route_message`].
//! 4. Write `HvMessageTypeNone` back into the slot header to signal the
//!    hypervisor we're done with it.
//! 5. If the message-pending flag is set, tell the hypervisor we can now
//!    accept another message by writing to [`HV_REGISTER_EOM`] via
//!    `HvCallSetVpRegisters`. If not set, no further ack is required.
use crate::connection;
use crate::connection::MessagePump;
use crate::error::Error;
use crate::error::Result;
use crate::hv::HvInputVtl;
use crate::hv::HvMessageType;
use crate::hv::HvRegisterName;
use crate::hv::HvRegisterValue;
use crate::hv::HV_MESSAGE_TYPE_NONE;
use crate::hvsock::ConnectResultHandler;
use crate::hvsock::HandlerSink;
use crate::hypercalls;
use crate::hypercalls::set_vp_register;
use crate::hypercalls::spin_once;
use crate::hypercalls::HvCtx;
use crate::hypercalls::HvEvent;
use crate::hypercalls::HypercallTrait;
use crate::le;
use crate::message;
use crate::message::route_message;
use crate::message::CompletionHandle;
use crate::message::CompletionTable;
use crate::message::MessageSink;
use crate::message::SlotState;
use crate::protocol::HV_MESSAGE_PAYLOAD_SIZE;
use crate::protocol::HV_MESSAGE_SIZE;
use crate::synic::VMBUS_SINT;
use crate::wire;
use crate::wire::Wire;
use vstd::prelude::*;

verus! {

broadcast use hypercalls::group_ran;

/// End-of-message register index used to ack a pending message.
///
/// This is the **virtual register** identifier used with
/// `HvCallSetVpRegisters`, NOT the x86 MSR index.
pub const HV_REGISTER_EOM: u32 = 0x000a_0014;

/// Byte offset of slot `n` inside a 4 KiB SIMP page.
pub fn slot_offset(sint: u8) -> (r: usize)
    ensures
        r == 256 * sint,
{
    HV_MESSAGE_SIZE * sint as usize
}

// ---------------------------------------------------------------------------
// The bytes of a slot
// ---------------------------------------------------------------------------
/// Result of inspecting the SIMP slot for [`VMBUS_SINT`].
#[derive(Debug)]
pub struct SlotView<'a> {
    /// The message type in the slot header.
    pub message_type: HvMessageType,
    /// Length of the payload in bytes.
    pub payload_len: u8,
    /// Whether the message-pending flag is set; if so, we owe the
    /// hypervisor an EOM after clearing the slot.
    pub message_pending: bool,
    /// The payload sub-slice (already truncated to `payload_len`).
    pub payload: &'a [u8],
}

/// A message that stands in a slot.
#[verifier::ext_equal]
pub struct SlotMessage {
    pub message_type: HvMessageType,
    pub message_pending: bool,
    pub payload: Seq<u8>,
}

/// The message in a slot, if there is one, or why the slot makes no
/// sense. Byte 4 is the payload's length, the lowest bit of byte 5 the
/// pending flag, and the payload starts at byte 16.
pub open spec fn slot_message(slot: Seq<u8>) -> Result<Option<SlotMessage>> {
    if slot.len() < HV_MESSAGE_SIZE {
        Err(Error::Parse { ty: None, reason: "SIMP slot smaller than HV_MESSAGE_SIZE" })
    } else if wire::decoded::<HvMessageType>(slot.take(4)).0 == HV_MESSAGE_TYPE_NONE {
        Ok(None)
    } else if slot[4] > HV_MESSAGE_PAYLOAD_SIZE {
        Err(Error::Parse { ty: None, reason: "SIMP slot payload length out of range" })
    } else {
        Ok(
            Some(
                SlotMessage {
                    message_type: wire::decoded::<HvMessageType>(slot.take(4)),
                    message_pending: slot[5] % 2 == 1,
                    payload: slot.subrange(16, 16 + slot[4]),
                },
            ),
        )
    }
}

/// Parse a raw slot's bytes without touching hardware. `slot` must be
/// at least [`HV_MESSAGE_SIZE`] bytes long.
///
/// Returns `Ok(None)` if the slot is empty (`HvMessageTypeNone`);
/// callers can stop draining.
///
/// The buffer is not consumed; the caller separately clears the slot
/// header and issues EOM after processing the message.
pub fn read_slot(slot: &[u8]) -> (r: Result<Option<SlotView<'_>>>)
    ensures
        match r {
            Err(e) => slot_message(slot@) == Err::<Option<SlotMessage>, Error>(e),
            Ok(None) => slot_message(slot@) == Ok::<Option<SlotMessage>, Error>(None),
            Ok(Some(v)) => {
                &&& slot_message(slot@) == Ok::<Option<SlotMessage>, Error>(
                    Some(
                        SlotMessage {
                            message_type: v.message_type,
                            message_pending: v.message_pending,
                            payload: v.payload@,
                        },
                    ),
                )
                &&& v.payload_len == v.payload@.len()
            },
        },
{
    if slot.len() < HV_MESSAGE_SIZE {
        return Err(
            Error::Parse { ty: None, reason: "SIMP slot smaller than HV_MESSAGE_SIZE" },
        );
    }
    let typ = HvMessageType::read_at(slot, 0);
    proof {
        assert(slot@.subrange(0, 4) =~= slot@.take(4));
        wire::lemma_decoded(typ);
    }
    if typ.0 == HV_MESSAGE_TYPE_NONE {
        return Ok(None);
    }
    let payload_len = slot[4];
    let flags = slot[5];
    let message_pending = flags % 2 == 1;
    if payload_len as usize > HV_MESSAGE_PAYLOAD_SIZE {
        return Err(Error::Parse { ty: None, reason: "SIMP slot payload length out of range" });
    }
    let payload_start: usize = 16;
    let payload_end = payload_start + payload_len as usize;
    Ok(
        Some(
            SlotView {
                message_type: typ,
                payload_len,
                message_pending,
                payload: &slot[payload_start..payload_end],
            },
        ),
    )
}

/// Clear the type field of a slot in place: the guest's signal to the
/// hypervisor that the message has been consumed.
pub fn clear_slot(slot: &mut [u8])
    requires
        old(slot)@.len() >= HV_MESSAGE_SIZE,
    ensures
        final(slot)@ == wire::zeros(4) + old(slot)@.skip(4),
{
    slot[0] = 0;
    slot[1] = 0;
    slot[2] = 0;
    slot[3] = 0;
    proof {
        assert(slot@ =~= wire::zeros(4) + old(slot)@.skip(4));
    }
}

/// Law: a slot that was cleared is empty.
pub proof fn law_cleared_slot_empty(slot: Seq<u8>)
    requires
        slot.len() >= HV_MESSAGE_SIZE,
    ensures
        slot_message(wire::zeros(4) + slot.skip(4)) == Ok::<Option<SlotMessage>, Error>(None),
{
    let cleared = wire::zeros(4) + slot.skip(4);
    let none = HvMessageType(HV_MESSAGE_TYPE_NONE);
    reveal(le::le32);
    assert(cleared.take(4) =~= none.wire());
    wire::lemma_decoded(none);
}

/// Issue an end-of-message write via `HvCallSetVpRegisters`.
///
/// Called when the previous message had `message_pending` set: the
/// hypervisor is waiting for us to acknowledge before delivering the
/// next message.
pub fn write_eom<C: HypercallTrait>(ctx: &mut HvCtx<C>) -> (r: Result<()>)
    ensures
        old(ctx).ran_to(*final(ctx)),
        old(ctx).platform().called(final(ctx).log().last()->Call_0, final(ctx).platform()),
        hypercalls::one_more(old(ctx).log(), final(ctx).log()),
        is_eom(final(ctx).log().last(), r),
{
    set_vp_register(ctx, HvRegisterName(HV_REGISTER_EOM), HvRegisterValue::from_u64(0))
}

/// The event is an end-of-message write, with this result.
pub open spec fn is_eom(ev: HvEvent, result: Result<()>) -> bool {
    hypercalls::is_register_write(
        ev,
        HvInputVtl(HvInputVtl::CURRENT_VTL),
        seq![(HvRegisterName(HV_REGISTER_EOM), HvRegisterValue { low: 0, high: 0 })],
        result,
    )
}

// ---------------------------------------------------------------------------
// Draining a slot
// ---------------------------------------------------------------------------
/// Address of the VMBus slot of the message page at `simp_gpa`.
pub open spec fn slot_gpa(simp_gpa: u64) -> u64 {
    ((simp_gpa + 512) % 0x1_0000_0000_0000_0000) as u64
}

/// Address of the VMBus slot of the message page at `simp_gpa`.
pub fn vmbus_slot(simp_gpa: u64) -> (r: u64)
    ensures
        r == slot_gpa(simp_gpa),
{
    simp_gpa.wrapping_add(slot_offset(VMBUS_SINT) as u64)
}

/// Number of events that draining a slot with these contents makes, if
/// the end-of-message write counts.
pub open spec fn drain_len(bytes: Seq<u8>) -> int {
    match slot_message(bytes) {
        Ok(Some(m)) => if message::route_answer(m.payload) is Ok {
            if m.message_pending {
                3
            } else {
                2
            }
        } else {
            1
        },
        _ => 1,
    }
}

/// The message that draining a slot with these contents routes, if any.
pub open spec fn drain_message(bytes: Seq<u8>) -> Option<Seq<u8>> {
    match slot_message(bytes) {
        Ok(Some(m)) => Some(m.payload),
        _ => None,
    }
}

/// Draining the slot at `gpa` made the events `ev`, brought the
/// completion table from the first state to the second, and ended in
/// `r`: the message is routed first, then the slot cleared, then, if
/// more messages wait, the end of the message written.
pub open spec fn drain(
    gpa: u64,
    table: (Seq<SlotState>, Seq<SlotState>),
    ev: Seq<HvEvent>,
    r: Result<bool>,
) -> bool {
    &&& ev.len() >= 1
    &&& ev[0] matches HvEvent::SlotRead { gpa: at, bytes }
    &&& at == gpa
    &&& ev.len() == drain_len(bytes)
    &&& match slot_message(bytes) {
        Err(e) => r == Err::<bool, Error>(e) && table.1 == table.0,
        Ok(None) => r == Ok::<bool, Error>(false) && table.1 == table.0,
        Ok(Some(m)) => {
            &&& table.1 == message::routed_table(table.0, m.payload)
            &&& match message::route_answer(m.payload) {
                Err(e) => r == Err::<bool, Error>(e),
                Ok(_) => {
                    &&& ev[1] == HvEvent::SlotCleared { gpa }
                    &&& if m.message_pending {
                        match r {
                            Ok(done) => done && is_eom(ev[2], Ok(())),
                            Err(e) => is_eom(ev[2], Err(e)),
                        }
                    } else {
                        r == Ok::<bool, Error>(true)
                    }
                },
            }
        },
    }
}

/// `next` is what draining a slot with these contents leaves of the sink.
pub open spec fn drained_sink<S: MessageSink>(s: S, bytes: Seq<u8>, next: S) -> bool {
    match drain_message(bytes) {
        Some(payload) => message::routed_sink(s, payload, next),
        None => next == s,
    }
}

/// Drain a single SIMP-slot access into the completion table / sink.
///
/// The routine reads the slot via [`read_slot`], routes the message
/// (if any) via [`route_message`], clears the slot, and issues an EOM
/// via [`write_eom`] when required.
///
/// Returns `true` if a message was processed, `false` if the slot was
/// empty.
pub fn drain_once<C: HypercallTrait, S: MessageSink, H: ConnectResultHandler>(
    ctx: &mut HvCtx<C>,
    gpa: u64,
    table: &mut CompletionTable,
    sink: &mut HandlerSink<S, H>,
) -> (r: Result<bool>)
    ensures
        old(ctx).ran_to(*final(ctx)),
        old(ctx).log().is_prefix_of(final(ctx).log()),
        drain(
            gpa,
            (old(table)@, final(table)@),
            final(ctx).log().skip(old(ctx).log().len() as int),
            r,
        ),
        drained_sink(
            *old(sink),
            final(ctx).log()[old(ctx).log().len() as int]->SlotRead_bytes,
            *final(sink),
        ),
{
    let ghost before = ctx.log();
    let bytes = ctx.read_message_slot(gpa);
    let ghost log1 = ctx.log();
    proof {
        assert(log1.drop_last() =~= before);
        connection::lemma_one_more(before, log1);
    }
    let view = match read_slot(bytes.as_slice()) {
        Ok(Some(view)) => view,
        Ok(None) => return Ok(false),
        Err(e) => return Err(e),
    };
    let needs_eom = view.message_pending;
    match route_message(
        view.payload,
        table,
        &mut sink.inner,
        &mut sink.handler,
    ) {
        Ok(()) => {},
        Err(e) => return Err(e),
    }
    ctx.clear_message_slot(gpa);
    let ghost log2 = ctx.log();
    proof {
        assert(log2.drop_last() =~= log1);
        connection::lemma_two_more(before, log1, log2);
        assert(log2[before.len() as int] == log1[before.len() as int]);
    }
    if needs_eom {
        let r = write_eom(ctx);
        proof {
            connection::lemma_one_more(log2, ctx.log());
            assert(ctx.log()[before.len() as int] == log2[before.len() as int]);
            assert(ctx.log()[before.len() as int + 1] == log2[before.len() as int + 1]);
            let ev = ctx.log().skip(before.len() as int);
            assert(ev[0] == log2[before.len() as int]);
            assert(ev[1] == log2[before.len() as int + 1]);
            assert(ev[2] == ctx.log().last());
            assert forall|i: int| 0 <= i < before.len() implies before[i] == #[trigger] ctx.log()[i] by {
                assert(log2[i] == ctx.log()[i]);
            }
        }
        match r {
            Ok(()) => {},
            Err(e) => return Err(e),
        }
    }
    Ok(true)
}

/// Number of events that capturing a slot with these contents makes.
pub open spec fn capture_len(bytes: Seq<u8>) -> int {
    match slot_message(bytes) {
        Ok(Some(m)) => if m.message_pending {
            3
        } else {
            2
        },
        _ => 1,
    }
}

/// Capturing what the slot at `gpa` holds made the events `ev`, brought
/// the completion table from the first state to the second, and ended in
/// `r`. Unlike [`drain`], the slot is freed whether or not the message
/// makes sense, and the message comes back as it stood there.
pub open spec fn captured(
    gpa: u64,
    table: (Seq<SlotState>, Seq<SlotState>),
    ev: Seq<HvEvent>,
    r: Result<Option<Seq<u8>>>,
) -> bool {
    &&& ev.len() >= 1
    &&& ev[0] matches HvEvent::SlotRead { gpa: at, bytes }
    &&& at == gpa
    &&& ev.len() == capture_len(bytes)
    &&& table.1 == drained_table(table.0, bytes)
    &&& match slot_message(bytes) {
        Err(e) => r == Err::<Option<Seq<u8>>, Error>(e),
        Ok(None) => r == Ok::<Option<Seq<u8>>, Error>(None),
        Ok(Some(m)) => {
            &&& ev[1] == HvEvent::SlotCleared { gpa }
            &&& if m.message_pending {
                match r {
                    Ok(got) => got == Some(m.payload) && is_eom(ev[2], Ok(())),
                    Err(e) => is_eom(ev[2], Err(e)),
                }
            } else {
                r == Ok::<Option<Seq<u8>>, Error>(Some(m.payload))
            }
        },
    }
}

/// The bytes that came back, if any did.
pub open spec fn captured_bytes(r: Result<Option<Vec<u8>>>) -> Result<Option<Seq<u8>>> {
    match r {
        Ok(Some(v)) => Ok(Some(v@)),
        Ok(None) => Ok(None),
        Err(e) => Err(e),
    }
}

/// Drain a single SIMP-slot access like [`drain_once`], and hand back the
/// raw bytes of the message that was there.
///
/// The message is routed to the completion table / sink on the way past.
/// One that does not parse is returned like any other: the slot is
/// cleared and the EOM issued all the same, so that nothing is left half
/// consumed.
pub fn drain_once_capture<C: HypercallTrait, S: MessageSink, H: ConnectResultHandler>(
    ctx: &mut HvCtx<C>,
    gpa: u64,
    table: &mut CompletionTable,
    sink: &mut HandlerSink<S, H>,
) -> (r: Result<Option<Vec<u8>>>)
    ensures
        old(ctx).ran_to(*final(ctx)),
        old(ctx).log().is_prefix_of(final(ctx).log()),
        captured(
            gpa,
            (old(table)@, final(table)@),
            final(ctx).log().skip(old(ctx).log().len() as int),
            captured_bytes(r),
        ),
        drained_sink(
            *old(sink),
            final(ctx).log()[old(ctx).log().len() as int]->SlotRead_bytes,
            *final(sink),
        ),
{
    let ghost before = ctx.log();
    let bytes = ctx.read_message_slot(gpa);
    let ghost log1 = ctx.log();
    proof {
        assert(log1.drop_last() =~= before);
        connection::lemma_one_more(before, log1);
    }
    let view = match read_slot(bytes.as_slice()) {
        Ok(Some(view)) => view,
        Ok(None) => return Ok(None),
        Err(e) => return Err(e),
    };
    let needs_eom = view.message_pending;
    let mut message: Vec<u8> = Vec::new();
    message.extend_from_slice(view.payload);
    proof {
        assert(message@ =~= view.payload@);
    }
    match route_message(
        view.payload,
        table,
        &mut sink.inner,
        &mut sink.handler,
    ) {
        Ok(()) => {},
        Err(_) => {},
    }
    ctx.clear_message_slot(gpa);
    let ghost log2 = ctx.log();
    proof {
        assert(log2.drop_last() =~= log1);
        connection::lemma_two_more(before, log1, log2);
        assert(log2[before.len() as int] == log1[before.len() as int]);
    }
    if needs_eom {
        let r = write_eom(ctx);
        proof {
            connection::lemma_one_more(log2, ctx.log());
            assert(ctx.log()[before.len() as int] == log2[before.len() as int]);
            assert(ctx.log()[before.len() as int + 1] == log2[before.len() as int + 1]);
            let ev = ctx.log().skip(before.len() as int);
            assert(ev[0] == log2[before.len() as int]);
            assert(ev[1] == log2[before.len() as int + 1]);
            assert(ev[2] == ctx.log().last());
            assert forall|i: int| 0 <= i < before.len() implies before[i] == #[trigger] ctx.log()[i] by {
                assert(log2[i] == ctx.log()[i]);
            }
        }
        match r {
            Ok(()) => {},
            Err(e) => return Err(e),
        }
    }
    Ok(Some(message))
}

// ---------------------------------------------------------------------------
// SimpPump
// ---------------------------------------------------------------------------
/// What draining a slot with these contents leaves of the table.
pub open spec fn drained_table(t: Seq<SlotState>, bytes: Seq<u8>) -> Seq<SlotState> {
    match drain_message(bytes) {
        Some(payload) => message::routed_table(t, payload),
        None => t,
    }
}

/// Polling the slot at `gpa` at most `retries` times for `handle` made
/// the events `ev`, brought the completion table from the first state to
/// the second, and ended in `r`: one drain after the other, until one
/// fails or the completion is there.
pub open spec fn poll_run(
    gpa: u64,
    handle: CompletionHandle,
    retries: nat,
    table: (Seq<SlotState>, Seq<SlotState>),
    ev: Seq<HvEvent>,
    r: Result<()>,
) -> bool
    decreases retries,
{
    if retries == 0 {
        &&& ev.len() == 0
        &&& table.1 == table.0
        &&& r == Err::<(), Error>(Error::Timeout)
    } else {
        let bytes = ev[0]->SlotRead_bytes;
        let k = drain_len(bytes);
        let next = drained_table(table.0, bytes);
        &&& 1 <= k <= ev.len()
        &&& exists|d: Result<bool>| #[trigger]
            drain(gpa, (table.0, next), ev.take(k), d) && match d {
                Err(e) => {
                    &&& ev.len() == k
                    &&& table.1 == next
                    &&& r == Err::<(), Error>(e)
                },
                Ok(_) => if handle.completed_in(next) {
                    &&& ev.len() == k
                    &&& table.1 == next
                    &&& r == Ok::<(), Error>(())
                } else {
                    poll_run(
                        gpa,
                        handle,
                        (retries - 1) as nat,
                        (next, table.1),
                        ev.skip(k),
                        r,
                    )
                },
            }
    }
}

/// A drain routes what its read of the slot found, and nothing else.
proof fn lemma_drain_routes(
    gpa: u64,
    table: (Seq<SlotState>, Seq<SlotState>),
    ev: Seq<HvEvent>,
    d: Result<bool>,
)
    requires
        drain(gpa, table, ev, d),
    ensures
        connection::routed_in(ev) == connection::routed_by(ev[0]),
{
    reveal_with_fuel(connection::routed_in, 4);
    assert(connection::routed_in(ev) =~= connection::routed_by(ev[0]));
}

/// A capture routes what its read of the slot found, and nothing else.
pub(crate) proof fn lemma_capture_routes(
    gpa: u64,
    table: (Seq<SlotState>, Seq<SlotState>),
    ev: Seq<HvEvent>,
    r: Result<Option<Seq<u8>>>,
)
    requires
        captured(gpa, table, ev, r),
    ensures
        connection::routed_in(ev) == connection::routed_by(ev[0]),
{
    reveal_with_fuel(connection::routed_in, 4);
    assert(connection::routed_in(ev) =~= connection::routed_by(ev[0]));
}

/// A drain that neither failed nor brought the completion, and the rest
/// of the run.
proof fn lemma_poll_again(
    gpa: u64,
    handle: CompletionHandle,
    retries: nat,
    table: (Seq<SlotState>, Seq<SlotState>),
    ev: Seq<HvEvent>,
    r: Result<()>,
    d: Result<bool>,
)
    requires
        retries > 0,
        1 <= drain_len(ev[0]->SlotRead_bytes) <= ev.len(),
        d is Ok,
        drain(
            gpa,
            (table.0, drained_table(table.0, ev[0]->SlotRead_bytes)),
            ev.take(drain_len(ev[0]->SlotRead_bytes)),
            d,
        ),
        !handle.completed_in(drained_table(table.0, ev[0]->SlotRead_bytes)),
        poll_run(
            gpa,
            handle,
            (retries - 1) as nat,
            (drained_table(table.0, ev[0]->SlotRead_bytes), table.1),
            ev.skip(drain_len(ev[0]->SlotRead_bytes)),
            r,
        ),
    ensures
        poll_run(gpa, handle, retries, table, ev, r),
{
}

/// How often a [`SimpPump`] polls unless told otherwise.
pub const DEFAULT_RETRIES: usize = 100_000_000;

/// A [`MessagePump`] that reads from a SIMP page.
///
/// # Retry policy
///
/// Each `poll_until` call polls the slot up to `max_retries` times,
/// idling between empty reads. When `max_retries` is exhausted without
/// seeing the awaited completion, [`Error::Timeout`] is returned. This
/// bound keeps a waiter from hanging forever if the host drops a signal.
///
/// Constructed with [`SimpPump::new`], which requires a valid SIMP GPA
/// (typically returned by [`crate::synic::synic_pages`]).
#[derive(Copy, Clone, Debug)]
pub struct SimpPump {
    gpa: u64,
    max_retries: usize,
}

impl SimpPump {
    /// Reasonable default retry count for polling.
    pub const DEFAULT_MAX_RETRIES: usize = DEFAULT_RETRIES;

    /// Address of the slot that is polled.
    pub closed spec fn gpa(&self) -> u64 {
        self.gpa
    }

    /// How often the slot is polled at most.
    pub closed spec fn retries(&self) -> nat {
        self.max_retries as nat
    }

    /// Construct a pump that reads from the SIMP page at `simp_gpa`.
    pub fn new(simp_gpa: u64) -> (r: Self)
        ensures
            r.gpa() == slot_gpa(simp_gpa),
            r.retries() == DEFAULT_RETRIES,
            r.source() == Some((slot_gpa(simp_gpa), DEFAULT_RETRIES as nat)),
    {
        SimpPump { gpa: vmbus_slot(simp_gpa), max_retries: DEFAULT_RETRIES }
    }

    /// Override the default retry count.
    pub fn with_max_retries(self, retries: usize) -> (r: Self)
        ensures
            r.gpa() == self.gpa(),
            r.retries() == retries,
    {
        SimpPump { gpa: self.gpa, max_retries: retries }
    }

    /// Poll the slot until the completion that `handle` waits for is in
    /// `table`.
    pub fn poll<C: HypercallTrait, S: MessageSink, H: ConnectResultHandler>(
        &mut self,
        ctx: &mut HvCtx<C>,
        table: &mut CompletionTable,
        handle: &CompletionHandle,
        sink: &mut HandlerSink<S, H>,
    ) -> (r: Result<()>)
        ensures
            final(self).gpa() == old(self).gpa(),
            final(self).retries() == old(self).retries(),
            old(ctx).ran_to(*final(ctx)),
            old(ctx).log().is_prefix_of(final(ctx).log()),
            poll_run(
                old(self).gpa(),
                *handle,
                old(self).retries(),
                (old(table)@, final(table)@),
                final(ctx).log().skip(old(ctx).log().len() as int),
                r,
            ),
            exists|messages: Seq<Seq<u8>>|
                {
                    &&& final(table)@ == message::table_after(old(table)@, messages)
                    &&& #[trigger] message::sink_after(*old(sink), messages, *final(sink))
                    &&& messages == connection::routed_in(
                        final(ctx).log().skip(old(ctx).log().len() as int),
                    )
                },
            r is Ok ==> handle.completed_in(final(table)@),
    {
        let ghost before = ctx.log();
        let ghost t0 = table@;
        let ghost s0 = *sink;
        let ghost gpa = self.gpa();
        let ghost retries = self.retries();
        let ghost mut messages: Seq<Seq<u8>> = Seq::empty();
        let mut i: usize = 0;
        proof {
            assert(ctx.log().skip(before.len() as int) =~= Seq::<HvEvent>::empty());
            assert forall|rest: Seq<HvEvent>| #[trigger]
                (Seq::<HvEvent>::empty() + rest) == rest by {
                assert(Seq::<HvEvent>::empty() + rest =~= rest);
            }
            assert(message::sink_after(s0, messages, *sink));
        }
        while i < self.max_retries
            invariant
                i <= self.max_retries,
                self.gpa() == gpa,
                self.retries() == retries,
                gpa == old(self).gpa(),
                retries == old(self).retries(),
                before == old(ctx).log(),
                old(ctx).ran_to(*ctx),
                t0 == old(table)@,
                s0 == *old(sink),
                before.is_prefix_of(ctx.log()),
                table@ == message::table_after(t0, messages),
                message::sink_after(s0, messages, *sink),
                messages == connection::routed_in(ctx.log().skip(before.len() as int)),
                forall|rest: Seq<HvEvent>, r: Result<()>, tf: Seq<SlotState>| #[trigger]
                    poll_run(gpa, *handle, (retries - i) as nat, (table@, tf), rest, r)
                        ==> poll_run(
                        gpa,
                        *handle,
                        retries,
                        (t0, tf),
                        ctx.log().skip(before.len() as int) + rest,
                        r,
                    ),
            decreases self.max_retries - i,
        {
            let ghost log1 = ctx.log();
            let ghost t1 = table@;
            let ghost s1 = *sink;
            let left = Ghost((retries - i) as nat);
            let drained = drain_once(ctx, self.gpa, table, sink);
            let ghost ev = ctx.log().skip(log1.len() as int);
            let ghost bytes = ev[0]->SlotRead_bytes;
            proof {
                assert(ev[0] == ctx.log()[log1.len() as int]);
                assert(ctx.log().skip(before.len() as int) =~= log1.skip(before.len() as int) + ev);
                assert forall|j: int| 0 <= j < before.len() implies before[j]
                    == #[trigger] ctx.log()[j] by {
                    assert(log1[j] == ctx.log()[j]);
                }
                assert(ev.take(drain_len(bytes)) =~= ev);
                assert(table@ == drained_table(t1, bytes));
                let seen = messages;
                match drain_message(bytes) {
                    Some(payload) => {
                        message::lemma_route_push(t0, s0, messages, s1, payload, *sink);
                        messages = messages.push(payload);
                    },
                    None => {},
                }
                lemma_drain_routes(gpa, (t1, table@), ev, drained);
                connection::lemma_routed_in(log1.skip(before.len() as int), ev);
                assert(messages =~= seen + connection::routed_by(ev[0]));
            }
            let got = match drained {
                Ok(got) => got,
                Err(e) => {
                    proof {
                        let r: Result<()> = Err(e);
                        assert(drain(gpa, (t1, table@), ev.take(drain_len(bytes)), drained));
                        assert(poll_run(gpa, *handle, left@, (t1, table@), ev, r));
                    }
                    return Err(e);
                },
            };
            proof {
                assert(drain(gpa, (t1, table@), ev.take(drain_len(bytes)), drained));
            }
            if handle.completed(table) {
                proof {
                    let r: Result<()> = Ok(());
                    assert(poll_run(gpa, *handle, left@, (t1, table@), ev, r));
                }
                return Ok(());
            }
            if !got {
                spin_once();
            }
            i += 1;
            proof {
                assert forall|rest: Seq<HvEvent>, r: Result<()>, tf: Seq<SlotState>| #[trigger]
                poll_run(gpa, *handle, (retries - i) as nat, (table@, tf), rest, r)
                    implies poll_run(
                    gpa,
                    *handle,
                    retries,
                    (t0, tf),
                    ctx.log().skip(before.len() as int) + rest,
                    r,
                ) by {
                    let all = ev + rest;
                    let k = drain_len(bytes);
                    assert(all[0] == ev[0]);
                    assert(all.take(k) =~= ev.take(k));
                    assert(all.skip(k) =~= rest);
                    assert(drain(gpa, (t1, table@), all.take(k), drained));
                    assert((left@ - 1) as nat == (retries - i) as nat);
                    lemma_poll_again(gpa, *handle, left@, (t1, tf), all, r, drained);
                    assert(log1.skip(before.len() as int) + all =~= ctx.log().skip(
                        before.len() as int,
                    ) + rest);
                }
            }
        }
        proof {
            let r: Result<()> = Err(Error::Timeout);
            assert(poll_run(
                gpa,
                *handle,
                (retries - i) as nat,
                (table@, table@),
                Seq::<HvEvent>::empty(),
                r,
            ));
            assert(ctx.log().skip(before.len() as int) + Seq::<HvEvent>::empty() =~= ctx.log().skip(
                before.len() as int,
            ));
        }
        Err(Error::Timeout)
    }
}

impl MessagePump for SimpPump {
    open spec fn source(&self) -> Option<(u64, nat)> {
        Some((self.gpa(), self.retries()))
    }

    fn poll_until<C: HypercallTrait, S: MessageSink, H: ConnectResultHandler>(
        &mut self,
        ctx: &mut HvCtx<C>,
        table: &mut CompletionTable,
        handle: &CompletionHandle,
        sink: &mut HandlerSink<S, H>,
    ) -> (r: Result<()>) {
        self.poll(ctx, table, handle, sink)
    }
}

} // verus!
