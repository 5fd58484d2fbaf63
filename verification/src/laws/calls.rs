//! Hypercalls: their codes, and their inputs byte by byte.
use crate::error::Error;
use crate::error::Result;
use crate::error::TmkError;
use crate::hv::HvInputVtl;
use crate::hv::HvRegisterName;
use crate::hv::HvRegisterValue;
use crate::hv::HvSynicScontrol;
use crate::hv::HvSynicSimpSiefp;
use crate::hv::HvSynicSint;
use crate::hv::SignalEvent;
use crate::hvsock::ConnectResultHandler;
use crate::hypercalls;
use crate::hypercalls::after_post;
use crate::hypercalls::backoff_iters;
use crate::hypercalls::get_vp_registers;
use crate::hypercalls::post_message;
use crate::hypercalls::set_vp_register;
use crate::hypercalls::set_vp_registers;
use crate::hypercalls::signal_event;
use crate::hypercalls::AfterPost;
use crate::hypercalls::HvCall;
use crate::hypercalls::HvCtx;
use crate::hypercalls::HvEvent;
use crate::hypercalls::HypercallTrait;
use crate::laws::connecting;
use crate::laws::decoding;
use crate::laws::layout;
use crate::state::VmbusState;
use crate::synic;
use crate::synic::init_synic;
use crate::synic::init_synic_with_pages;
use crate::synic::program_synic_registers;
use crate::synic::SynicPages;
use crate::wire::Wire;
use vstd::prelude::*;

verus! {

/// The call posts the message `payload`, or as much of it as fits in 240
/// bytes, to `connection_id`.
pub open spec fn posting(c: HvCall, connection_id: u32, payload: Seq<u8>) -> bool {
    let n = if payload.len() <= 240 {
        payload.len() as int
    } else {
        240
    };
    &&& c.code == 0x5c
    &&& !c.fast_call
    &&& c.rep_count is None
    &&& c.output_len == 0
    &&& c.input.len() == 256
    &&& layout::word32(c.input, 0) == connection_id
    &&& layout::word32(c.input, 4) == 0
    &&& layout::word32(c.input, 8) == 1
    &&& layout::word32(c.input, 12) == n
    &&& forall|i: int|
        0 <= i < 240 ==> c.input[#[trigger] (16 + i)] == (if i < n {
            payload[i]
        } else {
            0
        })
}

proof fn lemma_posting(c: HvCall, connection_id: u32, payload: Seq<u8>)
    requires
        c.is(0x5c, hypercalls::post_input(connection_id, payload), 0, None, false),
    ensures
        posting(c, connection_id, payload),
{
    let p = hypercalls::truncated(payload);
    let n = p.len() as u32;
    let b = c.input;
    connection_id.lemma_wire_len();
    0u32.lemma_wire_len();
    1u32.lemma_wire_len();
    n.lemma_wire_len();
    assert(b.subrange(0, 4) =~= connection_id.wire());
    assert(b.subrange(4, 8) =~= 0u32.wire());
    assert(b.subrange(8, 12) =~= 1u32.wire());
    assert(b.subrange(12, 16) =~= n.wire());
    layout::law_word32(connection_id, b, 0);
    layout::law_word32(0, b, 4);
    layout::law_word32(1, b, 8);
    layout::law_word32(n, b, 12);
}

/// Law: a message is posted by hypercall `0x5c`, tried again after a
/// transient failure and only then, at most a hundred times in all; the post
/// succeeds exactly if the last attempt did.
pub proof fn law_posted<C: HypercallTrait>(
    ctx: &mut HvCtx<C>,
    connection_id: u32,
    payload: &[u8],
    r: Result<()>,
    i: int,
)
    requires
        call_ensures(post_message::<C>, (ctx, connection_id, payload), r),
    ensures
        final(ctx).log().len() == old(ctx).log().len() + 1,
        final(ctx).log().drop_last() == old(ctx).log(),
        final(ctx).log().last() matches HvEvent::Posted {
            connection_id: to,
            payload: p,
            calls,
            result,
        } && {
            &&& to == connection_id
            &&& p == payload@
            &&& result == r
            &&& 1 <= calls.len() <= 100
            &&& 0 <= i < calls.len() ==> posting(calls[i], connection_id, payload@)
            &&& 0 <= i < calls.len() - 1 ==> {
                ||| calls[i].reply == Err::<Seq<u8>, TmkError>(TmkError::InsufficientBuffers)
                ||| calls[i].reply == Err::<Seq<u8>, TmkError>(TmkError::InsufficientMemory)
            }
            &&& r is Ok <==> calls.last().reply is Ok
            &&& calls.len() < 100 ==> (calls.last().reply matches Err(e) ==> {
                &&& e != TmkError::InsufficientBuffers
                &&& e != TmkError::InsufficientMemory
                &&& r == Err::<(), Error>(Error::Hypercall(e))
            })
        },
{
    let calls = final(ctx).log().last()->Posted_calls;
    if 0 <= i < calls.len() {
        lemma_posting(calls[i], connection_id, payload@);
    }
}

/// Law: attempts are followed by ever longer pauses: ten thousand rounds
/// after the first, twice as many after each further one, and no more than
/// 4096 times as many.
pub proof fn law_backoff(n: usize, r: usize, m: usize, s: usize)
    requires
        call_ensures(backoff_iters, (n,), r),
        call_ensures(backoff_iters, (m,), s),
        m == n + 1,
    ensures
        n == 0 ==> r == 10_000,
        n < 12 ==> s == 2 * r,
        n >= 12 ==> r == 40_960_000 && s == r,
{
    reveal_with_fuel(hypercalls::doubled, 14);
}

/// Law: an attempt that is accepted or refused for good ends the post; one
/// that fails for want of room is repeated after a pause, unless it was the
/// hundredth.
pub proof fn law_after_post(
    attempt: usize,
    reply: core::result::Result<(), TmkError>,
    r: AfterPost,
    pause: usize,
)
    requires
        call_ensures(after_post, (attempt, reply), r),
        call_ensures(backoff_iters, (attempt,), pause),
        attempt < 100,
    ensures
        reply is Ok ==> r == AfterPost::Done(Ok(())),
        reply matches Err(e) ==> if e == TmkError::InsufficientBuffers || e
            == TmkError::InsufficientMemory {
            if attempt == 99 {
                r == AfterPost::Done(Err(Error::Hypercall(TmkError::InsufficientBuffers)))
            } else {
                r matches AfterPost::Again { idle } && idle == pause
            }
        } else {
            r == AfterPost::Done(Err(Error::Hypercall(e)))
        },
{
}

/// Law: an event is signalled by the fast hypercall `0x5d`, whose eight bytes
/// of input are the connection, the flag and zeros.
pub proof fn law_signalled<C: HypercallTrait>(
    ctx: &mut HvCtx<C>,
    connection_id: u32,
    flag_number: u16,
    r: Result<()>,
)
    requires
        call_ensures(signal_event::<C>, (ctx, connection_id, flag_number), r),
    ensures
        final(ctx).log().drop_last() == old(ctx).log(),
        final(ctx).log().last() matches HvEvent::Call(c) && {
            &&& c.code == 0x5d
            &&& c.fast_call
            &&& c.rep_count is None
            &&& c.output_len == 0
            &&& c.input.len() == 8
            &&& layout::word32(c.input, 0) == connection_id
            &&& layout::word16(c.input, 4) == flag_number
            &&& layout::word16(c.input, 6) == 0
            &&& r is Ok <==> c.reply is Ok
            &&& c.reply matches Err(e) ==> r == Err::<(), Error>(Error::Hypercall(e))
        },
{
    let m = SignalEvent { connection_id, flag_number, rsvd: 0 };
    m.lemma_wire_len();
    let input = final(ctx).log().last()->Call_0.input;
    assert(input.subrange(0, 8) =~= input);
    layout::law_hv_signal_event_layout(m, input, 0);
}

/// What leads a register call: this partition, this processor, the trust
/// level, and zeros.
pub open spec fn for_this_processor(b: Seq<u8>, vtl: int) -> bool {
    &&& b.len() >= 16
    &&& layout::word64(b, 0) == 0xffff_ffff_ffff_ffff
    &&& layout::word32(b, 8) == 0xffff_fffe
    &&& b[12] == vtl
    &&& b[13] == 0
    &&& b[14] == 0
    &&& b[15] == 0
}

proof fn lemma_for_this_processor(vtl: HvInputVtl, rest: Seq<u8>)
    ensures
        hypercalls::registers_header(vtl).len() == 16,
        for_this_processor(hypercalls::registers_header(vtl) + rest, vtl.0 as int),
{
    let p: u64 = 0xffff_ffff_ffff_ffff;
    let i: u32 = 0xffff_fffe;
    p.lemma_wire_len();
    i.lemma_wire_len();
    vtl.lemma_wire_len();
    let b = hypercalls::registers_header(vtl) + rest;
    assert(b.subrange(0, 8) =~= p.wire());
    assert(b.subrange(8, 12) =~= i.wire());
    layout::law_word64(p, b, 0);
    layout::law_word32(i, b, 8);
    assert(b[12] == vtl.wire()[0]);
}

proof fn lemma_assocs(assocs: Seq<(HvRegisterName, HvRegisterValue)>, head: Seq<u8>, i: int)
    requires
        0 <= i < assocs.len(),
        head.len() == 16,
    ensures
        hypercalls::assocs_wire(assocs).len() == 32 * assocs.len(),
        ({
            let b = head + hypercalls::assocs_wire(assocs);
            let at = 16 + 32 * i;
            &&& layout::word32(b, at) == assocs[i].0.0
            &&& layout::word32(b, at + 4) == 0
            &&& layout::word64(b, at + 8) == 0
            &&& layout::word64(b, at + 16) == assocs[i].1.low
            &&& layout::word64(b, at + 24) == assocs[i].1.high
        }),
    decreases assocs.len(),
{
    let last = assocs.last();
    last.0.lemma_wire_len();
    last.1.lemma_wire_len();
    last.1.low.lemma_wire_len();
    last.1.high.lemma_wire_len();
    let front = hypercalls::assocs_wire(assocs.drop_last());
    let b = head + hypercalls::assocs_wire(assocs);
    let at = 16 + 32 * i;
    lemma_assocs_len(assocs.drop_last());
    if i < assocs.len() - 1 {
        lemma_assocs(assocs.drop_last(), head, i);
        assert forall|k: int| 0 <= k < 32 implies #[trigger] b[at + k] == (head + front)[at
            + k] by {}
        assert(b[at] == (head + front)[at]);
    } else {
        assert forall|k: int| 0 <= k < 12 implies b[#[trigger] (at + 4 + k)] == 0 by {
            assert(b[at + 4 + k] == hypercalls::assoc_wire(last)[4 + k]);
        }
        assert(b[at + 4 + 0] == 0 && b[at + 4 + 1] == 0 && b[at + 4 + 2] == 0 && b[at + 4 + 3]
            == 0);
        assert(b[at + 4 + 4] == 0 && b[at + 4 + 5] == 0 && b[at + 4 + 6] == 0 && b[at + 4 + 7]
            == 0);
        assert(b[at + 4 + 8] == 0 && b[at + 4 + 9] == 0 && b[at + 4 + 10] == 0 && b[at + 4 + 11]
            == 0);
        assert(b.subrange(at, at + 4) =~= last.0.wire());
        assert(b.subrange(at + 16, at + 24) =~= last.1.low.wire());
        assert(b.subrange(at + 24, at + 32) =~= last.1.high.wire());
        layout::law_word32(last.0.0, b, at);
        layout::law_word64(last.1.low, b, at + 16);
        layout::law_word64(last.1.high, b, at + 24);
    }
}

proof fn lemma_assocs_len(assocs: Seq<(HvRegisterName, HvRegisterValue)>)
    ensures
        hypercalls::assocs_wire(assocs).len() == 32 * assocs.len(),
    decreases assocs.len(),
{
    if assocs.len() > 0 {
        lemma_assocs_len(assocs.drop_last());
        assocs.last().0.lemma_wire_len();
        assocs.last().1.lemma_wire_len();
    }
}

/// The call sets `n` registers on this processor; register number `i` of them
/// is `name`, and it is set to `low` and `high`.
pub open spec fn sets(
    c: HvCall,
    vtl: int,
    n: nat,
    i: int,
    name: HvRegisterName,
    value: HvRegisterValue,
) -> bool {
    let at = 16 + 32 * i;
    &&& c.code == 0x51
    &&& !c.fast_call
    &&& c.rep_count matches Some(k) && k == n
    &&& c.output_len == 0
    &&& c.input.len() == 16 + 32 * n
    &&& for_this_processor(c.input, vtl)
    &&& layout::word32(c.input, at) == name.0
    &&& layout::word32(c.input, at + 4) == 0
    &&& layout::word64(c.input, at + 8) == 0
    &&& layout::word64(c.input, at + 16) == value.low
    &&& layout::word64(c.input, at + 24) == value.high
}

pub(crate) proof fn lemma_sets(
    ev: HvEvent,
    vtl: HvInputVtl,
    assocs: Seq<(HvRegisterName, HvRegisterValue)>,
    result: Result<()>,
    i: int,
)
    requires
        0 <= i < assocs.len() <= usize::MAX,
        hypercalls::is_register_write(ev, vtl, assocs, result),
    ensures
        ev is Call,
        sets(ev->Call_0, vtl.0 as int, assocs.len(), i, assocs[i].0, assocs[i].1),
        result is Ok <==> ev->Call_0.reply is Ok,
{
    lemma_for_this_processor(vtl, hypercalls::assocs_wire(assocs));
    lemma_assocs(assocs, hypercalls::registers_header(vtl), i);
}

/// Law: registers are set by one hypercall `0x51` that lists name and value
/// of each, 32 bytes apart; none at all are set without a call.
pub proof fn law_registers_set<C: HypercallTrait>(
    ctx: &mut HvCtx<C>,
    vtl: HvInputVtl,
    assocs: &[(HvRegisterName, HvRegisterValue)],
    r: Result<()>,
    i: int,
)
    requires
        call_ensures(set_vp_registers::<C>, (ctx, vtl, assocs), r),
        assocs@.len() <= usize::MAX,
    ensures
        assocs@.len() == 0 ==> r is Ok && *final(ctx) == *old(ctx),
        0 <= i < assocs@.len() ==> {
            &&& final(ctx).log().drop_last() == old(ctx).log()
            &&& final(ctx).log().last() is Call
            &&& sets(
                final(ctx).log().last()->Call_0,
                vtl.0 as int,
                assocs@.len(),
                i,
                assocs@[i].0,
                assocs@[i].1,
            )
            &&& r is Ok <==> final(ctx).log().last()->Call_0.reply is Ok
        },
{
    if 0 <= i < assocs@.len() {
        lemma_sets(final(ctx).log().last(), vtl, assocs@, r, i);
    }
}

/// Law: a single register is set at the current trust level.
pub proof fn law_register_set<C: HypercallTrait>(
    ctx: &mut HvCtx<C>,
    name: HvRegisterName,
    value: HvRegisterValue,
    r: Result<()>,
)
    requires
        call_ensures(set_vp_register::<C>, (ctx, name, value), r),
    ensures
        final(ctx).log().drop_last() == old(ctx).log(),
        final(ctx).log().last() is Call,
        sets(final(ctx).log().last()->Call_0, 0, 1, 0, name, value),
        r is Ok <==> final(ctx).log().last()->Call_0.reply is Ok,
{
    lemma_sets(final(ctx).log().last(), HvInputVtl(0), seq![(name, value)], r, 0);
}

proof fn lemma_names(names: Seq<HvRegisterName>, head: Seq<u8>, i: int)
    requires
        0 <= i < names.len(),
        head.len() == 16,
    ensures
        layout::word32(head + hypercalls::names_wire(names), 16 + 4 * i) == names[i].0,
    decreases names.len(),
{
    lemma_names_len(names.drop_last());
    let last = names.last();
    last.lemma_wire_len();
    let front = hypercalls::names_wire(names.drop_last());
    let b = head + hypercalls::names_wire(names);
    let at = 16 + 4 * i;
    if i < names.len() - 1 {
        lemma_names(names.drop_last(), head, i);
        assert(b[at] == (head + front)[at]);
        assert(b[at + 1] == (head + front)[at + 1]);
        assert(b[at + 2] == (head + front)[at + 2]);
        assert(b[at + 3] == (head + front)[at + 3]);
    } else {
        assert(b.subrange(at, at + 4) =~= last.wire());
        layout::law_word32(last.0, b, at);
    }
}

proof fn lemma_names_len(names: Seq<HvRegisterName>)
    ensures
        hypercalls::names_wire(names).len() == 4 * names.len(),
    decreases names.len(),
{
    if names.len() > 0 {
        lemma_names_len(names.drop_last());
        names.last().lemma_wire_len();
    }
}

/// Law: registers are read by one hypercall `0x50` that lists their names,
/// four bytes apart; the values come back 16 bytes apart, and the lower half
/// of each is returned, in the order of the names.
pub proof fn law_registers_read<C: HypercallTrait>(
    ctx: &mut HvCtx<C>,
    vtl: HvInputVtl,
    names: &[HvRegisterName],
    r: Result<Vec<u64>>,
    i: int,
)
    requires
        call_ensures(get_vp_registers::<C>, (ctx, vtl, names), r),
        16 * names@.len() <= usize::MAX,
    ensures
        names@.len() == 0 ==> r is Ok && *final(ctx) == *old(ctx),
        0 <= i < names@.len() ==> {
            &&& final(ctx).log().drop_last() == old(ctx).log()
            &&& final(ctx).log().last() matches HvEvent::Call(c)
            &&& c.code == 0x50
            &&& !c.fast_call
            &&& c.rep_count == Some(names@.len() as usize)
            &&& c.output_len == 16 * names@.len()
            &&& c.input.len() == 16 + 4 * names@.len()
            &&& for_this_processor(c.input, vtl.0 as int)
            &&& layout::word32(c.input, 16 + 4 * i) == names@[i].0
            &&& r is Ok <==> c.reply is Ok
            &&& r matches Ok(v) ==> {
                &&& v@.len() == names@.len()
                &&& v@[i] == layout::word64(c.reply->Ok_0, 16 * i)
            }
        },
{
    if 0 <= i < names@.len() {
        let c = final(ctx).log().last()->Call_0;
        lemma_for_this_processor(vtl, hypercalls::names_wire(names@));
        lemma_names(names@, hypercalls::registers_header(vtl), i);
        lemma_names_len(names@);
        if r is Ok {
            let b = c.reply->Ok_0;
            decoding::law_u64_decodes(b.subrange(16 * i, 16 * i + 8));
            layout::law_word64(r->Ok_0@[i], b, 16 * i);
        }
    }
}

/// The call programs the interrupt controller: the message page, the event
/// page, interrupt source 2 (polled, acknowledging itself, not masked) and
/// the main switch.
pub open spec fn programs(c: HvCall, simp_gpa: u64, siefp_gpa: u64, vector: u8) -> bool {
    let b = c.input;
    &&& c.code == 0x51
    &&& c.rep_count == Some(4usize)
    &&& b.len() == 144
    &&& for_this_processor(b, 0)
    &&& layout::word32(b, 16) == 0x000a_0013
    &&& layout::word64(b, 32) == simp_gpa + 1
    &&& layout::word32(b, 48) == 0x000a_0012
    &&& layout::word64(b, 64) == siefp_gpa + 1
    &&& layout::word32(b, 80) == 0x000a_0002
    &&& layout::word64(b, 96) == vector + 0x2_0000 + 0x4_0000
    &&& layout::word32(b, 112) == 0x000a_0010
    &&& layout::word64(b, 128) == 1
    &&& layout::word64(b, 40) == 0 && layout::word64(b, 72) == 0 && layout::word64(b, 104) == 0
        && layout::word64(b, 136) == 0
}

#[verifier::spinoff_prover]
#[verifier::rlimit(60)]
proof fn lemma_programs(
    ev: HvEvent,
    simp_gpa: u64,
    siefp_gpa: u64,
    vector: u8,
    result: Result<()>,
)
    requires
        simp_gpa % 4096 == 0,
        siefp_gpa % 4096 == 0,
        hypercalls::is_register_write(
            ev,
            HvInputVtl(0),
            synic::synic_registers(simp_gpa, siefp_gpa, vector),
            result,
        ),
    ensures
        ev is Call,
        programs(ev->Call_0, simp_gpa, siefp_gpa, vector),
        result is Ok <==> ev->Call_0.reply is Ok,
{
    let a = synic::synic_registers(simp_gpa, siefp_gpa, vector);
    lemma_sets(ev, HvInputVtl(0), a, result, 0);
    lemma_sets(ev, HvInputVtl(0), a, result, 1);
    lemma_sets(ev, HvInputVtl(0), a, result, 2);
    lemma_sets(ev, HvInputVtl(0), a, result, 3);
}

/// Law: the interrupt controller is programmed by one call, with both pages
/// switched on; pages that are not aligned are refused without a call.
pub proof fn law_controller_programmed<C: HypercallTrait>(
    ctx: &mut HvCtx<C>,
    simp_gpa: u64,
    siefp_gpa: u64,
    vector: u8,
    r: Result<()>,
)
    requires
        call_ensures(program_synic_registers::<C>, (ctx, simp_gpa, siefp_gpa, vector), r),
    ensures
        if simp_gpa % 4096 != 0 || siefp_gpa % 4096 != 0 {
            r == Err::<(), Error>(
                Error::Parse { ty: None, reason: "SynIC pages must be 4 KiB aligned" },
            ) && *final(ctx) == *old(ctx)
        } else {
            &&& final(ctx).log().drop_last() == old(ctx).log()
            &&& final(ctx).log().last() is Call
            &&& programs(final(ctx).log().last()->Call_0, simp_gpa, siefp_gpa, vector)
            &&& r is Ok <==> final(ctx).log().last()->Call_0.reply is Ok
        },
{
    if simp_gpa % 4096 == 0 && siefp_gpa % 4096 == 0 {
        lemma_programs(final(ctx).log().last(), simp_gpa, siefp_gpa, vector, r);
    }
}

/// Law: the controller comes up with vector `0xf3` over the pages that were
/// allocated, and only then are they remembered.
pub proof fn law_controller_up<C: HypercallTrait>(
    ctx: &mut HvCtx<C>,
    slot: &mut Option<SynicPages>,
    pages: Option<SynicPages>,
    r: Result<()>,
)
    requires
        call_ensures(init_synic::<C>, (ctx, slot, pages), r),
    ensures
        r is Ok ==> pages is Some && *final(slot) == pages,
        r is Err ==> *final(slot) == *old(slot),
        match pages {
            None => r == Err::<(), Error>(Error::Hypercall(TmkError::AllocationFailed))
                && *final(ctx) == *old(ctx),
            Some(p) => if p.simp_gpa % 4096 != 0 || p.siefp_gpa % 4096 != 0 {
                r == Err::<(), Error>(
                Error::Parse { ty: None, reason: "SynIC pages must be 4 KiB aligned" },
            ) && *final(ctx) == *old(ctx)
            } else {
                &&& final(ctx).log().drop_last() == old(ctx).log()
                &&& final(ctx).log().last() is Call
                &&& programs(final(ctx).log().last()->Call_0, p.simp_gpa, p.siefp_gpa, 0xf3)
                &&& r is Ok <==> final(ctx).log().last()->Call_0.reply is Ok
            },
        },
{
    if pages is Some {
        let p = pages->0;
        if p.simp_gpa % 4096 == 0 && p.siefp_gpa % 4096 == 0 {
            lemma_programs(final(ctx).log().last(), p.simp_gpa, p.siefp_gpa, 0xf3, r);
        }
    }
}

/// Law: the same with pages that were allocated before.
pub proof fn law_controller_up_with<C: HypercallTrait>(
    ctx: &mut HvCtx<C>,
    slot: &mut Option<SynicPages>,
    p: SynicPages,
    r: Result<()>,
)
    requires
        call_ensures(init_synic_with_pages::<C>, (ctx, slot, p), r),
    ensures
        r is Ok ==> *final(slot) == Some(p),
        r is Err ==> *final(slot) == *old(slot),
        if p.simp_gpa % 4096 != 0 || p.siefp_gpa % 4096 != 0 {
            r == Err::<(), Error>(
                Error::Parse { ty: None, reason: "SynIC pages must be 4 KiB aligned" },
            ) && *final(ctx) == *old(ctx)
        } else {
            &&& final(ctx).log().drop_last() == old(ctx).log()
            &&& final(ctx).log().last() is Call
            &&& programs(final(ctx).log().last()->Call_0, p.simp_gpa, p.siefp_gpa, 0xf3)
            &&& r is Ok <==> final(ctx).log().last()->Call_0.reply is Ok
        },
{
    if p.simp_gpa % 4096 == 0 && p.siefp_gpa % 4096 == 0 {
        lemma_programs(final(ctx).log().last(), p.simp_gpa, p.siefp_gpa, 0xf3, r);
    }
}

/// Law: initialising programs the controller first and negotiates only once
/// that has succeeded, starting with the newest version.
pub proof fn law_initialised<C: HypercallTrait, H: ConnectResultHandler>(
    ctx: &mut HvCtx<C>,
    state: &mut VmbusState<H>,
    pages: Option<SynicPages>,
    r: Result<()>,
)
    requires
        call_ensures(crate::init::<C, H>, (ctx, state, pages), r),
    ensures
        pages is None ==> r == Err::<(), Error>(Error::Hypercall(TmkError::AllocationFailed))
            && final(ctx).log() == old(ctx).log(),
        pages matches Some(p) ==> if p.simp_gpa % 4096 != 0 || p.siefp_gpa % 4096 != 0 {
            r == Err::<(), Error>(
                Error::Parse { ty: None, reason: "SynIC pages must be 4 KiB aligned" },
            ) && final(ctx).log() == old(ctx).log()
        } else {
            let n = old(ctx).log().len() as int;
            let log = final(ctx).log();
            &&& log.len() > n
            &&& log[n] is Call
            &&& programs(log[n]->Call_0, p.simp_gpa, p.siefp_gpa, 0xf3)
            &&& log[n]->Call_0.reply is Err ==> r is Err && log.len() == n + 1
            &&& log[n]->Call_0.reply is Ok ==> {
                &&& final(state).synic == pages
                &&& log.len() > n + 1
                &&& log[n + 1] matches HvEvent::Posted { connection_id, payload, .. }
                &&& connection_id == 4
                &&& layout::word32(payload, 0) == 14
                &&& layout::word32(payload, 8) == 0x6_0000
            }
            &&& r is Ok ==> final(state).connection is Some
        },
{
    if pages is Some {
        let p = pages->0;
        if p.simp_gpa % 4096 == 0 && p.siefp_gpa % 4096 == 0 {
            let n = old(ctx).log().len() as int;
            let ev = final(ctx).log().skip(n);
            assert(ev[0] == final(ctx).log()[n]);
            lemma_programs(
                ev[0],
                p.simp_gpa,
                p.siefp_gpa,
                0xf3,
                hypercalls::call_result(ev[0]),
            );
            if ev[0]->Call_0.reply is Ok {
                connecting::lemma_first_request(
                    (*old(state), *final(state)),
                    ev.skip(1),
                    r,
                );
                assert(ev.skip(1)[0] == final(ctx).log()[n + 1]);
            }
        }
    }
}

/// Law: what a register of the controller is built from can be read back.
pub proof fn law_controller_registers(
    on: bool,
    gpn: u64,
    page: HvSynicSimpSiefp,
    page_on: bool,
    page_gpn: u64,
    vector: u8,
    masked: bool,
    auto_eoi: bool,
    polling: bool,
    sint: HvSynicSint,
    sint_vector: u8,
    sint_masked: bool,
    sint_auto_eoi: bool,
    sint_polling: bool,
    control: HvSynicScontrol,
    control_on: bool,
)
    requires
        gpn < 0x10_0000_0000_0000,
        call_ensures(HvSynicSimpSiefp::new, (on, gpn), page),
        call_ensures(HvSynicSimpSiefp::enabled, (&page,), page_on),
        call_ensures(HvSynicSimpSiefp::base_gpn, (&page,), page_gpn),
        call_ensures(HvSynicSint::new, (vector, masked, auto_eoi, polling), sint),
        call_ensures(HvSynicSint::vector, (&sint,), sint_vector),
        call_ensures(HvSynicSint::masked, (&sint,), sint_masked),
        call_ensures(HvSynicSint::auto_eoi, (&sint,), sint_auto_eoi),
        call_ensures(HvSynicSint::polling, (&sint,), sint_polling),
        call_ensures(HvSynicScontrol::new, (on,), control),
        call_ensures(HvSynicScontrol::enabled, (&control,), control_on),
    ensures
        page_on == on,
        page_gpn == gpn,
        page.0 / 4096 == gpn,
        page.0 % 4096 == (if on {
            1u64
        } else {
            0
        }),
        sint_vector == vector,
        sint_masked == masked,
        sint_auto_eoi == auto_eoi,
        sint_polling == polling,
        sint.0 % 256 == vector,
        sint.0 / 0x1_0000 % 2 == 1 <==> masked,
        sint.0 / 0x2_0000 % 2 == 1 <==> auto_eoi,
        sint.0 / 0x4_0000 % 2 == 1 <==> polling,
        control_on == on,
        control.0 == (if on {
            1u64
        } else {
            0
        }),
{
}

} // verus!
