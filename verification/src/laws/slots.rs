//! The message slot, the requests under way, and where messages go.
use crate::connection::ConnectionState;
use crate::connection::OfferCollector;
use crate::error::Error;
use crate::error::Result;
use crate::hv::HvInputVtl;
use crate::hv::HvMessageType;
use crate::hv::HvRegisterName;
use crate::hv::HvRegisterValue;
use crate::hvsock;
use crate::hvsock::encode_tl_connect_request;
use crate::hvsock::send_hvsock_connect;
use crate::hvsock::ConnectResultHandler;
use crate::hvsock::HandlerSink;
use crate::hypercalls::HvCtx;
use crate::hypercalls::HvEvent;
use crate::hypercalls::HypercallTrait;
use crate::interrupt;
use crate::interrupt::clear_slot;
use crate::interrupt::drain_once;
use crate::interrupt::drain_once_capture;
use crate::interrupt::read_slot;
use crate::interrupt::slot_offset;
use crate::interrupt::vmbus_slot;
use crate::interrupt::write_eom;
use crate::interrupt::SimpPump;
use crate::interrupt::SlotView;
use crate::laws::calls;
use crate::laws::decoding;
use crate::laws::layout;
use crate::laws::messages;
use crate::message;
use crate::message::delivery_result;
use crate::message::route_message;
use crate::message::CompletionHandle;
use crate::message::CompletionKey;
use crate::message::CompletionTable;
use crate::message::MessageSink;
use crate::message::SlotState;
use crate::protocol::Guid;
use crate::protocol::OfferChannel;
use crate::protocol::RescindChannelOffer;
use crate::protocol::TlConnectRequest;
use crate::protocol::TlConnectRequest2;
use crate::protocol::TlConnectResult;
use crate::protocol::Version;
use crate::wire;
use crate::wire::Wire;
use vstd::prelude::*;

verus! {

/// Law: slots are 256 bytes apart, and the bus has number 2.
pub proof fn law_slot_place(sint: u8, a: usize, page: u64, b: u64)
    requires
        call_ensures(slot_offset, (sint,), a),
        call_ensures(vmbus_slot, (page,), b),
    ensures
        a == 256 * sint,
        page <= u64::MAX - 512 ==> b == page + 512,
{
}

/// The message in a slot of at least 256 bytes: bytes 0 to 4 are its type,
/// which is zero where there is none, byte 4 its length, the lowest bit of
/// byte 5 says whether more wait, and it starts at byte 16.
pub open spec fn holds_message(slot: Seq<u8>) -> bool {
    &&& slot.len() >= 256
    &&& layout::word32(slot, 0) != 0
    &&& slot[4] <= 240
}

/// What is wrong with a slot that is too small, or whose message is too long.
pub open spec fn slot_error(slot: Seq<u8>) -> Error {
    if slot.len() < 256 {
        Error::Parse { ty: None, reason: "SIMP slot smaller than HV_MESSAGE_SIZE" }
    } else {
        Error::Parse { ty: None, reason: "SIMP slot payload length out of range" }
    }
}

/// That message.
pub open spec fn message_of(slot: Seq<u8>) -> Seq<u8> {
    slot.subrange(16, 16 + slot[4])
}

pub(crate) proof fn lemma_slot(slot: Seq<u8>)
    ensures
        slot.len() < 256 ==> interrupt::slot_message(slot) == Err::<
            Option<interrupt::SlotMessage>,
            Error,
        >(slot_error(slot)),
        slot.len() >= 256 && layout::word32(slot, 0) == 0 ==> interrupt::slot_message(slot) == Ok::<
            Option<interrupt::SlotMessage>,
            Error,
        >(None),
        slot.len() >= 256 && layout::word32(slot, 0) != 0 && slot[4] > 240
            ==> interrupt::slot_message(slot) == Err::<Option<interrupt::SlotMessage>, Error>(
            slot_error(slot),
        ),
        holds_message(slot) ==> {
            &&& interrupt::slot_message(slot) matches Ok(Some(m))
            &&& m.message_type.0 == layout::word32(slot, 0)
            &&& m.message_pending == (slot[5] % 2 == 1)
            &&& m.payload == message_of(slot)
        },
{
    if slot.len() >= 256 {
        decoding::law_hv_hv_message_type_decodes(slot.take(4));
        let t = wire::decoded::<HvMessageType>(slot.take(4));
        assert(slot.subrange(0, 4) =~= slot.take(4));
        layout::law_hv_hv_message_type_layout(t, slot, 0);
    }
}

/// Law: what a slot holds.
pub proof fn law_slot_read(slot: &[u8], r: Result<Option<SlotView<'_>>>)
    requires
        call_ensures(read_slot, (slot,), r),
    ensures
        r matches Ok(Some(v)) ==> {
            &&& holds_message(slot@)
            &&& v.message_type.0 == layout::word32(slot@, 0)
            &&& v.payload_len == slot@[4]
            &&& v.message_pending == (slot@[5] % 2 == 1)
            &&& v.payload@ == message_of(slot@)
        },
        holds_message(slot@) ==> r is Ok && r->Ok_0 is Some,
        r is Ok && r->Ok_0 is None <==> slot@.len() >= 256 && layout::word32(slot@, 0) == 0,
{
    lemma_slot(slot@);
}

/// Law: clearing a slot zeroes its type and nothing else.
pub proof fn law_slot_cleared(slot: &mut [u8])
    requires
        call_ensures(clear_slot, (slot,), ()),
        old(slot)@.len() >= 256,
    ensures
        final(slot)@.len() == old(slot)@.len(),
        layout::word32(final(slot)@, 0) == 0,
        forall|i: int| 4 <= i < old(slot)@.len() ==> #[trigger] final(slot)@[i] == old(slot)@[i],
{
}

/// Law: the end of a message is written to register `0x000a0014`, as zero.
pub proof fn law_eom<C: HypercallTrait>(ctx: &mut HvCtx<C>, r: Result<()>)
    requires
        call_ensures(write_eom::<C>, (ctx,), r),
    ensures
        final(ctx).log().drop_last() == old(ctx).log(),
        final(ctx).log().last() is Call,
        ends_message(final(ctx).log().last()),
        r is Ok <==> final(ctx).log().last()->Call_0.reply is Ok,
{
    lemma_eom(final(ctx).log().last(), r);
}

/// The event writes the end of a message.
pub open spec fn ends_message(ev: HvEvent) -> bool {
    ev is Call && calls::sets(
        ev->Call_0,
        0,
        1,
        0,
        HvRegisterName(0x000a_0014),
        HvRegisterValue { low: 0, high: 0 },
    )
}

pub(crate) proof fn lemma_eom(ev: HvEvent, r: Result<()>)
    requires
        interrupt::is_eom(ev, r),
    ensures
        ends_message(ev),
        r is Ok <==> ev->Call_0.reply is Ok,
        r matches Err(e) ==> e == Error::Hypercall(ev->Call_0.reply->Err_0),
{
    calls::lemma_sets(
        ev,
        HvInputVtl(0),
        seq![(HvRegisterName(0x000a_0014), HvRegisterValue { low: 0, high: 0 })],
        r,
        0,
    );
}

/// Law: a drain reads the slot once. A message that makes sense is routed,
/// then its slot cleared, and then, if more wait, its end written; one that
/// makes none is left in the slot.
pub proof fn law_drained<C: HypercallTrait, S: MessageSink, H: ConnectResultHandler>(
    ctx: &mut HvCtx<C>,
    gpa: u64,
    table: &mut CompletionTable,
    sink: &mut HandlerSink<S, H>,
    r: Result<bool>,
)
    requires
        call_ensures(drain_once::<C, S, H>, (ctx, gpa, table, sink), r),
    ensures
        ({
            let n = old(ctx).log().len() as int;
            let log = final(ctx).log();
            let slot = log[n]->SlotRead_bytes;
            &&& old(ctx).log().is_prefix_of(log)
            &&& log.len() > n
            &&& log[n] is SlotRead
            &&& log[n]->SlotRead_gpa == gpa
            &&& !holds_message(slot) ==> {
                &&& log.len() == n + 1
                &&& final(table)@ == old(table)@
                &&& if slot.len() >= 256 && layout::word32(slot, 0) == 0 {
                    r == Ok::<bool, Error>(false)
                } else {
                    r == Err::<bool, Error>(slot_error(slot))
                }
            }
            &&& holds_message(slot) ==> {
                &&& final(table)@ == message::routed_table(old(table)@, message_of(slot))
                &&& if message::route_answer(message_of(slot)) is Err {
                    &&& log.len() == n + 1
                    &&& r == Err::<bool, Error>(message::route_answer(message_of(slot))->Err_0)
                } else {
                    &&& log[n + 1] == HvEvent::SlotCleared { gpa }
                    &&& if slot[5] % 2 == 1 {
                        &&& log.len() == n + 3
                        &&& ends_message(log[n + 2])
                        &&& log[n + 2]->Call_0.reply is Ok ==> r == Ok::<bool, Error>(true)
                        &&& log[n + 2]->Call_0.reply is Err ==> r == Err::<bool, Error>(
                            Error::Hypercall(log[n + 2]->Call_0.reply->Err_0),
                        )
                    } else {
                        log.len() == n + 2 && r == Ok::<bool, Error>(true)
                    }
                }
            }
        }),
{
    let n = old(ctx).log().len() as int;
    let ev = final(ctx).log().skip(n);
    let slot = ev[0]->SlotRead_bytes;
    lemma_slot(slot);
    assert(ev[0] == final(ctx).log()[n]);
    if ev.len() > 1 {
        assert(ev[1] == final(ctx).log()[n + 1]);
    }
    if ev.len() > 2 {
        assert(ev[2] == final(ctx).log()[n + 2]);
        match r {
            Ok(_) => lemma_eom(ev[2], Ok(())),
            Err(e) => lemma_eom(ev[2], Err(e)),
        }
    }
}

/// Law: a drain that captures hands out the message as it stood in the slot,
/// and frees the slot whether or not the message makes sense.
pub proof fn law_captured<C: HypercallTrait, S: MessageSink, H: ConnectResultHandler>(
    ctx: &mut HvCtx<C>,
    gpa: u64,
    table: &mut CompletionTable,
    sink: &mut HandlerSink<S, H>,
    r: Result<Option<Vec<u8>>>,
)
    requires
        call_ensures(drain_once_capture::<C, S, H>, (ctx, gpa, table, sink), r),
    ensures
        ({
            let n = old(ctx).log().len() as int;
            let log = final(ctx).log();
            let slot = log[n]->SlotRead_bytes;
            &&& old(ctx).log().is_prefix_of(log)
            &&& log.len() > n
            &&& log[n] is SlotRead
            &&& log[n]->SlotRead_gpa == gpa
            &&& r matches Ok(Some(m)) ==> holds_message(slot) && m@ == message_of(slot)
            &&& !holds_message(slot) ==> {
                &&& log.len() == n + 1
                &&& if slot.len() >= 256 && layout::word32(slot, 0) == 0 {
                    r is Ok && r->Ok_0 is None
                } else {
                    r is Err && r->Err_0 == slot_error(slot)
                }
            }
            &&& holds_message(slot) ==> {
                &&& final(table)@ == message::routed_table(old(table)@, message_of(slot))
                &&& log[n + 1] == HvEvent::SlotCleared { gpa }
                &&& if slot[5] % 2 == 1 {
                    &&& log.len() == n + 3
                    &&& ends_message(log[n + 2])
                    &&& log[n + 2]->Call_0.reply is Ok <==> r is Ok
                } else {
                    log.len() == n + 2 && r is Ok
                }
                &&& r is Ok ==> r->Ok_0 is Some
            }
        }),
{
    let n = old(ctx).log().len() as int;
    let ev = final(ctx).log().skip(n);
    let slot = ev[0]->SlotRead_bytes;
    lemma_slot(slot);
    assert(ev[0] == final(ctx).log()[n]);
    if ev.len() > 1 {
        assert(ev[1] == final(ctx).log()[n + 1]);
    }
    if ev.len() > 2 {
        assert(ev[2] == final(ctx).log()[n + 2]);
        match r {
            Ok(_) => lemma_eom(ev[2], Ok(())),
            Err(e) => lemma_eom(ev[2], Err(e)),
        }
    }
}

/// Law: a pump reads the slot of the bus in the message page, up to a hundred
/// million times or as often as it is told.
pub proof fn law_pump_made(page: u64, a: SimpPump, n: usize, b: SimpPump)
    requires
        call_ensures(SimpPump::new, (page,), a),
        call_ensures(SimpPump::with_max_retries, (a, n), b),
    ensures
        page <= u64::MAX - 512 ==> a.gpa() == page + 512,
        a.retries() == 100_000_000,
        b.gpa() == a.gpa(),
        b.retries() == n,
{
}

/// Number of reads of a slot among `ev`.
pub open spec fn slot_reads(ev: Seq<HvEvent>) -> nat
    decreases ev.len(),
{
    if ev.len() == 0 {
        0
    } else {
        slot_reads(ev.drop_last()) + (if ev.last() is SlotRead {
            1nat
        } else {
            0nat
        })
    }
}

pub(crate) proof fn lemma_slot_reads(a: Seq<HvEvent>, b: Seq<HvEvent>)
    ensures
        slot_reads(a + b) == slot_reads(a) + slot_reads(b),
    decreases b.len(),
{
    if b.len() == 0 {
        assert(a + b =~= a);
    } else {
        lemma_slot_reads(a, b.drop_last());
        assert((a + b).drop_last() =~= a + b.drop_last());
    }
}

proof fn lemma_poll(
    gpa: u64,
    handle: CompletionHandle,
    retries: nat,
    table: (Seq<SlotState>, Seq<SlotState>),
    ev: Seq<HvEvent>,
    r: Result<()>,
)
    requires
        interrupt::poll_run(gpa, handle, retries, table, ev, r),
    ensures
        slot_reads(ev) <= retries,
        r is Ok ==> retries > 0 && handle.completed_in(table.1),
        slot_reads(ev) < retries && r is Err ==> ev.len() > 0,
        retries == 0 ==> r == Err::<(), Error>(Error::Timeout),
        retries > 0 ==> ev.len() > 0 && ev[0] is SlotRead && ev[0]->SlotRead_gpa == gpa,
    decreases retries,
{
    if retries > 0 {
        let bytes = ev[0]->SlotRead_bytes;
        let k = interrupt::drain_len(bytes);
        let next = interrupt::drained_table(table.0, bytes);
        let first = ev.take(k);
        let d = choose|d: Result<bool>| #[trigger]
            interrupt::drain(gpa, (table.0, next), first, d) && match d {
                Err(e) => {
                    &&& ev.len() == k
                    &&& table.1 == next
                    &&& r == Err::<(), Error>(e)
                },
                Ok(_) => if handle.completed_in(next) {
                    &&& ev.len() == k
                    &&& table.1 == next
                    &&& r == Ok::<(), Error>(())
                } else {
                    interrupt::poll_run(
                        gpa,
                        handle,
                        (retries - 1) as nat,
                        (next, table.1),
                        ev.skip(k),
                        r,
                    )
                },
            };
        reveal_with_fuel(slot_reads, 4);
        assert(slot_reads(first) == 1) by {
            if k == 2 {
                assert(first.drop_last().drop_last() =~= Seq::<HvEvent>::empty());
            } else if k == 3 {
                assert(first.drop_last().drop_last().drop_last() =~= Seq::<HvEvent>::empty());
            } else {
                assert(first.drop_last() =~= Seq::<HvEvent>::empty());
            }
        }
        lemma_slot_reads(first, ev.skip(k));
        assert(first + ev.skip(k) =~= ev);
        if d is Ok && !handle.completed_in(next) {
            lemma_poll(gpa, handle, (retries - 1) as nat, (next, table.1), ev.skip(k), r);
        } else {
            assert(ev.skip(k) =~= Seq::<HvEvent>::empty());
        }
    }
}

/// Law: a poll reads its slot at least once and no more often than its bound
/// says, and ends well only once the awaited completion is there.
pub proof fn law_polled<C: HypercallTrait, S: MessageSink, H: ConnectResultHandler>(
    pump: &mut SimpPump,
    ctx: &mut HvCtx<C>,
    table: &mut CompletionTable,
    handle: &CompletionHandle,
    sink: &mut HandlerSink<S, H>,
    r: Result<()>,
)
    requires
        call_ensures(SimpPump::poll::<C, S, H>, (pump, ctx, table, handle, sink), r),
    ensures
        final(pump).gpa() == old(pump).gpa(),
        final(pump).retries() == old(pump).retries(),
        ({
            let ev = final(ctx).log().skip(old(ctx).log().len() as int);
            &&& slot_reads(ev) <= old(pump).retries()
            &&& old(pump).retries() > 0 ==> {
                &&& ev.len() > 0
                &&& ev[0] is SlotRead
                &&& ev[0]->SlotRead_gpa == old(pump).gpa()
            }
            &&& old(pump).retries() == 0 ==> r == Err::<(), Error>(Error::Timeout)
            &&& interrupt::poll_run(
                old(pump).gpa(),
                *handle,
                old(pump).retries(),
                (old(table)@, final(table)@),
                ev,
                r,
            )
        }),
        r is Ok ==> handle.completed_in(final(table)@),
{
    let ev = final(ctx).log().skip(old(ctx).log().len() as int);
    lemma_poll(
        old(pump).gpa(),
        *handle,
        old(pump).retries(),
        (old(table)@, final(table)@),
        ev,
        r,
    );
}

/// Law: a poll is one look at the slot after the other. A look that fails ends
/// it, and so does the awaited completion; otherwise it goes on with one look
/// less, and without any left it times out.
pub proof fn law_poll_goes_on(
    gpa: u64,
    handle: CompletionHandle,
    retries: nat,
    table: (Seq<SlotState>, Seq<SlotState>),
    ev: Seq<HvEvent>,
    r: Result<()>,
)
    requires
        interrupt::poll_run(gpa, handle, retries, table, ev, r),
    ensures
        retries == 0 ==> {
            &&& ev.len() == 0
            &&& r == Err::<(), Error>(Error::Timeout)
            &&& table.1 == table.0
        },
        retries > 0 ==> {
            let slot = ev[0]->SlotRead_bytes;
            let held = holds_message(slot);
            let next = if held {
                message::routed_table(table.0, message_of(slot))
            } else {
                table.0
            };
            let k = if !held {
                1int
            } else if slot[5] % 2 == 1 {
                3
            } else {
                2
            };
            &&& ev.len() > 0
            &&& ev[0] is SlotRead
            &&& ev[0]->SlotRead_gpa == gpa
            &&& if !held && (slot.len() < 256 || layout::word32(slot, 0) != 0) {
                &&& ev.len() == 1
                &&& r == Err::<(), Error>(slot_error(slot))
                &&& table.1 == next
            } else if held && message::route_answer(message_of(slot)) is Err {
                &&& ev.len() == 1
                &&& r == Err::<(), Error>(message::route_answer(message_of(slot))->Err_0)
                &&& table.1 == next
            } else if held && k == 3 && ev[2]->Call_0.reply is Err {
                &&& ev.len() == 3
                &&& r == Err::<(), Error>(Error::Hypercall(ev[2]->Call_0.reply->Err_0))
                &&& table.1 == next
            } else if (0 <= handle.slot() < next.len() && next[handle.slot()].completed) {
                &&& ev.len() == k
                &&& r == Ok::<(), Error>(())
                &&& table.1 == next
            } else {
                &&& ev.len() >= k
                &&& interrupt::poll_run(
                    gpa,
                    handle,
                    (retries - 1) as nat,
                    (next, table.1),
                    ev.skip(k),
                    r,
                )
            }
        },
{
    if retries > 0 {
        let slot = ev[0]->SlotRead_bytes;
        let k = interrupt::drain_len(slot);
        let next = interrupt::drained_table(table.0, slot);
        let first = ev.take(k);
        lemma_slot(slot);
        let d = choose|d: Result<bool>| #[trigger]
            interrupt::drain(gpa, (table.0, next), first, d) && match d {
                Err(e) => {
                    &&& ev.len() == k
                    &&& table.1 == next
                    &&& r == Err::<(), Error>(e)
                },
                Ok(_) => if handle.completed_in(next) {
                    &&& ev.len() == k
                    &&& table.1 == next
                    &&& r == Ok::<(), Error>(())
                } else {
                    interrupt::poll_run(
                        gpa,
                        handle,
                        (retries - 1) as nat,
                        (next, table.1),
                        ev.skip(k),
                        r,
                    )
                },
            };
        assert(first[0] == ev[0]);
        if k == 3 {
            assert(first[2] == ev[2]);
            match d {
                Ok(_) => lemma_eom(ev[2], Ok(())),
                Err(e) => lemma_eom(ev[2], Err(e)),
            }
        }
    }
}

/// Law: a table starts empty; a new request gets the next slot, waits, and
/// takes the place of an earlier one with its key.
pub proof fn law_registered(
    start: CompletionTable,
    table: &mut CompletionTable,
    key: CompletionKey,
    r: CompletionHandle,
    k: CompletionKey,
    i: int,
)
    requires
        call_ensures(CompletionTable::new, (), start),
        call_ensures(CompletionTable::register, (table, key), r),
        call_ensures(CompletionHandle::key, (&r,), k),
    ensures
        start@.len() == 0,
        k == key,
        r.slot() == old(table)@.len(),
        final(table)@.len() == old(table)@.len() + 1,
        ({
            let new = final(table)@.last();
            new.key == key && new.current && !new.completed && new.response is None
        }),
        0 <= i < old(table)@.len() ==> {
            let a = old(table)@[i];
            let b = final(table)@[i];
            &&& b.key == a.key
            &&& b.completed == a.completed
            &&& b.response == a.response
            &&& b.current == (a.current && a.key != key)
        },
{
}

/// Law: a delivery goes to the newest request that waits for its key, and to
/// no other; it is an orphan where there is none, or nobody waits.
pub proof fn law_delivered(
    table: &mut CompletionTable,
    key: CompletionKey,
    response: Vec<u8>,
    r: Result<()>,
    i: int,
)
    requires
        call_ensures(CompletionTable::deliver, (table, key, response), r),
        0 <= i < old(table)@.len(),
    ensures
        final(table)@.len() == old(table)@.len(),
        ({
            let a = old(table)@[i];
            let b = final(table)@[i];
            let newest = a.current && a.key == key && forall|j: int|
                i < j < old(table)@.len() ==> !((#[trigger] old(table)@[j]).current
                    && old(table)@[j].key == key);
            &&& b.key == a.key
            &&& b.current == a.current
            &&& newest ==> b.completed && b.response == Some(response@)
            &&& !newest ==> b == a
        }),
        (forall|j: int|
            0 <= j < old(table)@.len() ==> !((#[trigger] old(table)@[j]).current
                && old(table)@[j].key == key)) ==> r == Err::<(), Error>(Error::OrphanCompletion),
        r matches Err(e) ==> e == Error::OrphanCompletion,
{
    lemma_newest(old(table)@, key);
}

proof fn lemma_newest(t: Seq<SlotState>, key: CompletionKey)
    ensures
        message::slot_for(t, key) matches Some(i) ==> {
            &&& 0 <= i < t.len()
            &&& t[i].current && t[i].key == key
            &&& forall|j: int|
                i < j < t.len() ==> !((#[trigger] t[j]).current && t[j].key == key)
        },
        message::slot_for(t, key) is None ==> forall|j: int|
            0 <= j < t.len() ==> !((#[trigger] t[j]).current && t[j].key == key),
    decreases t.len(),
{
    if t.len() > 0 {
        let d = t.drop_last();
        lemma_newest(d, key);
        if !(t.last().current && t.last().key == key) {
            assert forall|j: int|
                0 <= j < t.len() && (message::slot_for(t, key) matches Some(i) ==> i
                    < j) implies !((#[trigger] t[j]).current && t[j].key == key) by {
                if j < t.len() - 1 {
                    assert(d[j] == t[j]);
                }
            }
        }
    }
}

/// Law: a delivery is answered well exactly if somebody waits for it.
pub proof fn law_delivery_result(found: bool, waited: bool, r: Result<()>)
    requires
        call_ensures(delivery_result, (found, waited), r),
    ensures
        r is Ok <==> found && waited,
        r matches Err(e) ==> e == Error::OrphanCompletion,
{
}

/// Law: a response can be taken once it is there, and once only.
pub proof fn law_response_taken(
    handle: CompletionHandle,
    done: bool,
    table: &mut CompletionTable,
    r: Option<Vec<u8>>,
)
    requires
        call_ensures(CompletionHandle::completed, (&handle, &*old(table)), done),
        call_ensures(CompletionHandle::take_response, (&handle, table), r),
    ensures
        done <==> 0 <= handle.slot() < old(table)@.len() && old(table)@[handle.slot()].completed,
        !done ==> r is None && final(table)@ == old(table)@,
        done ==> {
            &&& r is Some <==> old(table)@[handle.slot()].response is Some
            &&& r matches Some(v) ==> old(table)@[handle.slot()].response == Some(v@)
            &&& final(table)@[handle.slot()].response is None
            &&& final(table)@[handle.slot()].completed
            &&& final(table)@.len() == old(table)@.len()
            &&& forall|i: int|
                0 <= i < old(table)@.len() && i != handle.slot() ==> #[trigger] final(table)@[i]
                    == old(table)@[i]
        },
{
}

/// Law: counting the requests under way drops those that nobody holds.
pub proof fn law_pending(table: &mut CompletionTable, held: &Vec<bool>, r: usize, i: int)
    requires
        call_ensures(CompletionTable::pending_held, (table, held), r),
        held@.len() == old(table)@.len(),
        0 <= i < held@.len(),
    ensures
        final(table)@.len() == old(table)@.len(),
        r <= final(table)@.len(),
        held@[i] ==> final(table)@[i] == old(table)@[i],
        !held@[i] ==> !final(table)@[i].current && final(table)@[i].response is None,
        final(table)@[i].key == old(table)@[i].key,
        final(table)@[i].completed == old(table)@[i].completed,
        final(table)@[i].current ==> r > 0,
        r == final(table)@.filter(|s: SlotState| s.current).len(),
        (forall|j: int| 0 <= j < held@.len() ==> !(#[trigger] final(table)@[j]).current) ==> r
            == 0,
        (forall|j: int| 0 <= j < held@.len() ==> (#[trigger] final(table)@[j]).current) ==> r
            == held@.len(),
{
    lemma_live(final(table)@, i);
    lemma_live_count(final(table)@);
}

proof fn lemma_live_count(t: Seq<SlotState>)
    ensures
        message::live_count(t) == t.filter(|s: SlotState| s.current).len(),
    decreases t.len(),
{
    reveal(Seq::filter);
    if t.len() > 0 {
        lemma_live_count(t.drop_last());
    }
}

proof fn lemma_live(t: Seq<SlotState>, i: int)
    requires
        0 <= i < t.len(),
    ensures
        message::live_count(t) <= t.len(),
        t[i].current ==> message::live_count(t) > 0,
        (forall|j: int| 0 <= j < t.len() ==> !(#[trigger] t[j]).current) ==> message::live_count(
            t,
        ) == 0,
        (forall|j: int| 0 <= j < t.len() ==> (#[trigger] t[j]).current) ==> message::live_count(t)
            == t.len(),
    decreases t.len(),
{
    let d = t.drop_last();
    if d.len() > 0 {
        if i < d.len() {
            lemma_live(d, i);
        } else {
            lemma_live(d, 0);
        }
        assert forall|j: int| 0 <= j < d.len() implies #[trigger] d[j] == t[j] by {}
        assert((forall|j: int| 0 <= j < t.len() ==> !(#[trigger] t[j]).current) ==> (forall|
            j: int,
        |
            0 <= j < d.len() ==> !(#[trigger] d[j]).current));
        assert((forall|j: int| 0 <= j < t.len() ==> (#[trigger] t[j]).current) ==> (forall|j: int|
            0 <= j < d.len() ==> (#[trigger] d[j]).current));
    } else {
        assert(message::live_count(d) == 0);
    }
}

/// Law: an offer goes to the sink and to nobody else; an offer that is taken
/// back likewise; a connect result goes to the sink, to the handler and to
/// the request that waits for it; any other answer to the request that waits
/// for it; and what answers nothing goes nowhere.
pub proof fn law_routed<S: MessageSink, H: ConnectResultHandler>(
    bytes: &[u8],
    table: &mut CompletionTable,
    sink: &mut S,
    handler: &mut Option<H>,
    r: Result<()>,
    key: Result<Option<CompletionKey>>,
)
    requires
        call_ensures(route_message::<S, H>, (bytes, table, sink, handler), r),
        call_ensures(message::completion_key_for, (bytes,), key),
    ensures
        bytes@.len() < 8 ==> r == Err::<(), Error>(
            Error::Parse { ty: None, reason: "message shorter than header" },
        ),
        bytes@.len() >= 8 && layout::word32(bytes@, 0) == 1 ==> {
            &&& r is Ok <==> bytes@.len() >= 196
            &&& final(table)@ == old(table)@
            &&& *final(handler) == *old(handler)
            &&& r is Ok ==> exists|o: OfferChannel|
                o.wire() == bytes@.subrange(8, 196) && #[trigger] old(sink).offered(
                    o,
                    *final(sink),
                )
        },
        bytes@.len() >= 8 && layout::word32(bytes@, 0) == 2 ==> {
            &&& r is Ok <==> bytes@.len() >= 12
            &&& final(table)@ == old(table)@
            &&& *final(handler) == *old(handler)
            &&& r is Ok ==> exists|o: RescindChannelOffer|
                o.channel_id.0 == layout::word32(bytes@, 8) && #[trigger] old(sink).rescinded(
                    o,
                    *final(sink),
                )
        },
        bytes@.len() >= 44 && layout::word32(bytes@, 0) == 23 ==> {
            &&& r is Ok
            &&& exists|o: TlConnectResult|
                o.wire() == bytes@.subrange(8, 44) && #[trigger] old(sink).connect_answered(
                    o,
                    *final(sink),
                ) && hvsock::dispatched(*old(handler), o, *final(handler))
        },
        bytes@.len() >= 8 && layout::word32(bytes@, 0) > 2 && layout::word32(bytes@, 0) != 23 ==> {
            &&& r is Ok <==> key is Ok
            &&& *final(sink) == *old(sink)
            &&& *final(handler) == *old(handler)
        },
        bytes@.len() >= 8 && layout::word32(bytes@, 0) > 2 ==> {
            &&& key matches Ok(Some(k)) ==> final(table)@ == message::delivered(
                old(table)@,
                k,
                bytes@,
            )
            &&& key is Err || key->Ok_0 is None ==> final(table)@ == old(table)@
        },
{
    messages::lemma_parsed::<OfferChannel>(bytes@);
    messages::lemma_parsed::<RescindChannelOffer>(bytes@);
    messages::lemma_parsed::<TlConnectResult>(bytes@);
    messages::law_completion_key(bytes, key);
    if bytes@.len() >= 8 {
        messages::lemma_type(bytes@);
    }
    if bytes@.len() >= 196 && layout::word32(bytes@, 0) == 1 {
        decoding::law_offer_channel_decodes(bytes@.subrange(8, 196));
        let o = wire::decoded::<OfferChannel>(bytes@.subrange(8, 196));
        assert(old(sink).offered(o, *final(sink)));
    }
    if bytes@.len() >= 12 && layout::word32(bytes@, 0) == 2 {
        decoding::law_rescind_channel_offer_decodes(bytes@.subrange(8, 12));
        let o = wire::decoded::<RescindChannelOffer>(bytes@.subrange(8, 12));
        layout::law_rescind_channel_offer_layout(o, bytes@, 8);
        assert(old(sink).rescinded(o, *final(sink)));
    }
    if bytes@.len() >= 44 && layout::word32(bytes@, 0) == 23 {
        decoding::law_tl_connect_result_decodes(bytes@.subrange(8, 44));
        let o = wire::decoded::<TlConnectResult>(bytes@.subrange(8, 44));
        assert(old(sink).connect_answered(o, *final(sink)));
    }
}

/// The bytes of a request to connect to a service: of type 21, with endpoint,
/// service and, from version 5.2 on where there is one, silo.
pub open spec fn connect_message(
    p: Seq<u8>,
    version: Version,
    endpoint: Guid,
    service: Guid,
    silo: Option<Guid>,
) -> bool {
    &&& layout::word32(p, 0) == 21
    &&& layout::word32(p, 4) == 0
    &&& p.subrange(8, 24) == endpoint.wire()
    &&& p.subrange(24, 40) == service.wire()
    &&& if silo is Some && version.number() >= 0x5_0002 {
        p.len() == 56 && p.subrange(40, 56) == silo->0.wire()
    } else {
        p.len() == 40
    }
}

proof fn lemma_connect_message(
    version: Version,
    endpoint: Guid,
    service: Guid,
    silo: Option<Guid>,
)
    ensures
        connect_message(
            hvsock::connect_bytes(version, endpoint, service, silo),
            version,
            endpoint,
            service,
            silo,
        ),
{
    let p = hvsock::connect_bytes(version, endpoint, service, silo);
    let base = TlConnectRequest { endpoint_id: endpoint, service_id: service };
    endpoint.lemma_wire_len();
    service.lemma_wire_len();
    base.lemma_wire_len();
    if silo is Some && version.number() >= 0x5_0002 {
        let m = TlConnectRequest2 { base, silo_id: silo->0 };
        m.lemma_wire_len();
        silo->0.lemma_wire_len();
        messages::lemma_message(m, p);
        let b = p.subrange(8, 56);
        assert(b == m.wire());
        assert(p.subrange(8, 24) =~= b.subrange(0, 16));
        assert(p.subrange(24, 40) =~= b.subrange(16, 32));
        assert(p.subrange(40, 56) =~= b.subrange(32, 48));
        assert(b.subrange(0, 16) =~= endpoint.wire());
        assert(b.subrange(16, 32) =~= service.wire());
        assert(b.subrange(32, 48) =~= silo->0.wire());
    } else {
        messages::lemma_message(base, p);
        let b = p.subrange(8, 40);
        assert(b == base.wire());
        assert(p.subrange(8, 24) =~= b.subrange(0, 16));
        assert(p.subrange(24, 40) =~= b.subrange(16, 32));
        assert(b.subrange(0, 16) =~= endpoint.wire());
        assert(b.subrange(16, 32) =~= service.wire());
    }
}

/// Law: how a request to connect to a service is encoded.
pub proof fn law_connect_encoded(
    version: Version,
    endpoint: Guid,
    service: Guid,
    silo: Option<Guid>,
    r: Vec<u8>,
)
    requires
        call_ensures(encode_tl_connect_request, (version, endpoint, service, silo), r),
    ensures
        connect_message(r@, version, endpoint, service, silo),
{
    lemma_connect_message(version, endpoint, service, silo);
}

/// Law: a request to connect goes to the agreed connection, in the layout of
/// the agreed version; before there is one it is refused.
pub proof fn law_connect_sent<C: HypercallTrait>(
    ctx: &mut HvCtx<C>,
    connection: Option<ConnectionState>,
    endpoint: Guid,
    service: Guid,
    silo: Option<Guid>,
    r: Result<()>,
)
    requires
        call_ensures(send_hvsock_connect::<C>, (ctx, connection, endpoint, service, silo), r),
    ensures
        match connection {
            None => r == Err::<(), Error>(Error::VersionMismatch)
                && final(ctx).log() == old(ctx).log(),
            Some(state) => {
                &&& final(ctx).log().drop_last() == old(ctx).log()
                &&& final(ctx).log().last() matches HvEvent::Posted {
                    connection_id,
                    payload,
                    result,
                    ..
                }
                &&& connection_id == state.post_message_connection_id
                &&& connect_message(payload, state.selected_version, endpoint, service, silo)
                &&& result == r
            },
        },
{
    if connection is Some {
        lemma_connect_message(connection->0.selected_version, endpoint, service, silo);
    }
}

/// Law: a handler that is registered takes the place of the one before.
pub proof fn law_handler_set<H: ConnectResultHandler>(slot: &mut Option<H>, handler: H)
    requires
        call_ensures(hvsock::set_connect_result_handler::<H>, (slot, handler), ()),
    ensures
        *final(slot) == Some(handler),
{
}

/// Law: a collector starts empty and keeps offers and rescinds apart, each in
/// the order in which they come.
pub proof fn law_collected(
    start: OfferCollector,
    c: &mut OfferCollector,
    offer: OfferChannel,
    d: &mut OfferCollector,
    rescind: RescindChannelOffer,
)
    requires
        call_ensures(<OfferCollector as Default>::default, (), start),
        call_ensures(<OfferCollector as MessageSink>::offer, (c, &offer), ()),
        call_ensures(<OfferCollector as MessageSink>::rescind, (d, &rescind), ()),
    ensures
        start.offers@.len() == 0,
        start.rescinds@.len() == 0,
        final(c).offers@ == old(c).offers@.push(offer),
        final(c).rescinds@ == old(c).rescinds@,
        final(d).offers@ == old(d).offers@,
        final(d).rescinds@ == old(d).rescinds@.push(rescind),
{
}

} // verus!
