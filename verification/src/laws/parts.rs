//! Small parts: what is kept is what was given, and memory is memory.
use crate::channel::allocate_open_id;
use crate::channel::Channel;
use crate::channel::ChannelState;
use crate::connection::OfferCollector;
use crate::devices::keyboard::Keyboard;
use crate::devices::netvsp::Netvsp;
use crate::error::TmkError;
use crate::executor;
use crate::executor::make_deserializer;
use crate::executor::Deserializer;
use crate::executor::ExecutorError;
use crate::executor::FunctionRegistry;
use crate::fuzz::RawChannel;
use crate::gpadl::GpadlHandle;
use crate::hvsock::ConnectResultHandler;
use crate::hvsock::HandlerSink;
use crate::hypercalls::HvCtx;
use crate::hypercalls::HvEvent;
use crate::hypercalls::HypercallConfig;
use crate::hypercalls::HypercallTrait;
use crate::laws::executors;
use crate::message::CompletionTable;
use crate::message::MessageSink;
use crate::protocol::ChannelId;
use crate::protocol::OfferChannel;
use crate::protocol::OfferFlags;
use crate::protocol::OpenChannelFlags;
use crate::protocol::PacketFlags;
use crate::protocol::RescindChannelOffer;
use crate::protocol::TargetInfo;
use crate::protocol::TlConnectResult;
use crate::ring::RingMem;
use crate::ring_model::RingState;
use crate::state::IdCounter;
use crate::state::VmbusState;
use crate::synic::synic_pages;
use crate::synic::SynicPages;
use vstd::prelude::*;

verus! {

/// Law: what a channel says of itself is what it was opened with.
pub proof fn law_channel_kept(
    channel: Channel,
    channel_id: ChannelId,
    open_id: u32,
    ring_gpadl: GpadlHandle,
    connection_id: u32,
    event_flag: u16,
    state: ChannelState,
)
    requires
        call_ensures(Channel::channel_id, (&channel,), channel_id),
        call_ensures(Channel::open_id, (&channel,), open_id),
        call_ensures(Channel::ring_gpadl, (&channel,), ring_gpadl),
        call_ensures(Channel::connection_id, (&channel,), connection_id),
        call_ensures(Channel::event_flag, (&channel,), event_flag),
        call_ensures(Channel::state, (&channel,), state),
    ensures
        channel == (Channel {
            channel_id,
            open_id,
            ring_gpadl,
            connection_id,
            event_flag,
            state,
        }),
{
}

/// Law: a device hands out the channel that it was made over.
pub proof fn law_device_channel<M: RingMem>(
    channel: Channel,
    send_mem: M,
    recv_mem: M,
    keyboard: Keyboard<M>,
    a: &Channel,
    b: Channel,
    nic: Netvsp<M>,
    c: Channel,
    raw: RawChannel<M>,
    d: &Channel,
)
    requires
        call_ensures(Keyboard::<M>::new, (channel, send_mem, recv_mem), keyboard),
        call_ensures(Keyboard::<M>::channel, (&keyboard,), a),
        call_ensures(Keyboard::<M>::into_channel, (keyboard,), b),
        call_ensures(Netvsp::<M>::into_channel, (nic,), c),
        call_ensures(RawChannel::<M>::channel, (&raw,), d),
    ensures
        *a == channel,
        b == channel,
        c == nic.link.channel,
        *d == raw.link.channel,
{
}

/// Law: the sections of a network device are those that it remembers.
pub proof fn law_sections_kept<M: RingMem>(nic: Netvsp<M>, a: u32, b: u32)
    requires
        call_ensures(Netvsp::<M>::recv_section_size, (&nic,), a),
        call_ensures(Netvsp::<M>::send_section_size, (&nic,), b),
    ensures
        a == nic.recv_section_size,
        b == nic.send_section_size,
{
}

/// Law: open ids are handed out one after the other.
pub proof fn law_open_ids(ids: &mut IdCounter, r: u32)
    requires
        call_ensures(allocate_open_id, (ids,), r),
    ensures
        r == old(ids).next,
        r < u32::MAX ==> final(ids).next == r + 1,
{
}

/// Law: a guest starts with nothing: no connection, no pages, an empty table,
/// no handler, and ids from 1 on.
pub proof fn law_new_state<H: ConnectResultHandler>(
    state: VmbusState<H>,
    table: CompletionTable,
    slot: &Option<SynicPages>,
    pages: Option<SynicPages>,
)
    requires
        call_ensures(VmbusState::<H>::new, (), state),
        call_ensures(<CompletionTable as Default>::default, (), table),
        call_ensures(synic_pages, (slot,), pages),
    ensures
        state.connection is None,
        state.synic is None,
        state.table@.len() == 0,
        state.handler is None,
        state.gpadl_ids.next == 1,
        state.open_ids.next == 1,
        table@.len() == 0,
        pages == *slot,
{
}

/// Law: bits that were not set are clear.
pub proof fn law_no_bits(
    a: TargetInfo,
    b: OfferFlags,
    c: OpenChannelFlags,
    d: PacketFlags,
)
    requires
        call_ensures(TargetInfo::new, (), a),
        call_ensures(OfferFlags::new, (), b),
        call_ensures(OpenChannelFlags::new, (), c),
        call_ensures(PacketFlags::new, (), d),
    ensures
        a.0 == 0,
        b.0 == 0,
        c.0 == 0,
        d.0 == 0,
{
}

/// Law: everything that is asked of the platform is on record, in order, with
/// what went in and what came out.
pub proof fn law_recorded<C: HypercallTrait>(
    inner: C,
    new: HvCtx<C>,
    platform: &C,
    reading: &mut HvCtx<C>,
    gpa: u64,
    bytes: Vec<u8>,
    clearing: &mut HvCtx<C>,
)
    requires
        call_ensures(HvCtx::<C>::new, (inner,), new),
        call_ensures(HvCtx::<C>::inner, (&new,), platform),
        call_ensures(HvCtx::<C>::read_message_slot, (reading, gpa), bytes),
        call_ensures(HvCtx::<C>::clear_message_slot, (clearing, gpa), ()),
    ensures
        new.log().len() == 0,
        *platform == inner,
        final(reading).log().drop_last() == old(reading).log(),
        final(reading).log().last() == (HvEvent::SlotRead { gpa, bytes: bytes@ }),
        final(clearing).log().drop_last() == old(clearing).log(),
        final(clearing).log().last() == (HvEvent::SlotCleared { gpa }),
{
}

/// Law: the same of a hypercall.
pub proof fn law_call_recorded<C: HypercallTrait>(
    ctx: &mut HvCtx<C>,
    code: u64,
    input: &[u8],
    output: &mut [u8],
    cfg: HypercallConfig,
    r: core::result::Result<(), TmkError>,
)
    requires
        call_ensures(HvCtx::<C>::call, (ctx, code, input, output, cfg), r),
    ensures
        final(ctx).log().drop_last() == old(ctx).log(),
        final(output)@.len() == old(output)@.len(),
        final(ctx).log().last() is Call,
        ({
            let c = final(ctx).log().last()->Call_0;
            &&& c.code == code
            &&& c.input == input@
            &&& c.output_len == old(output)@.len()
            &&& c.rep_count == cfg.rep_count
            &&& c.fast_call == cfg.fast_call
            &&& match r {
                Ok(_) => c.reply == Ok::<Seq<u8>, TmkError>(final(output)@),
                Err(e) => c.reply == Err::<Seq<u8>, TmkError>(e),
            }
            &&& old(ctx).platform().called(c, final(ctx).platform())
        }),
{
}

/// Law: memory that no peer changes keeps what is stored in a control word,
/// and a store changes no other.
pub proof fn law_words_kept<M: RingMem>(
    mem: &mut M,
    word: usize,
    value: u32,
    other: M,
    k: usize,
    r: u32,
    len: usize,
    all: Vec<u32>,
)
    requires
        old(mem).exclusive(),
        old(mem).state().wf(),
        word < 17,
        k < 17,
        call_ensures(<M as RingMem>::store, (mem, word, value), ()),
        other.exclusive(),
        other.state() == final(mem).state(),
        call_ensures(<M as RingMem>::load, (&other, k), r),
        call_ensures(<M as RingMem>::data_len, (&other,), len),
        call_ensures(<M as RingMem>::control, (&other,), all),
    ensures
        r == (if k == word {
            value
        } else {
            old(mem).state().words[k as int]
        }),
        all@ == old(mem).state().words.update(word as int, value),
        final(mem).state().data == old(mem).state().data,
        len == old(mem).state().data.len(),
{
}

/// Law: it keeps the bytes that are written, going round at its end, and a
/// write of no more than the whole ring changes no other.
pub proof fn law_bytes_kept<M: RingMem>(
    mem: &mut M,
    off: usize,
    data: &[u8],
    other: M,
    at: usize,
    buf: &mut [u8],
    k: int,
)
    requires
        old(mem).exclusive(),
        old(mem).state().wf(),
        data@.len() <= old(mem).state().data.len(),
        call_ensures(<M as RingMem>::write_at, (mem, off, data), ()),
        other.exclusive(),
        other.state() == final(mem).state(),
        call_ensures(<M as RingMem>::read_at, (&other, at, buf), ()),
        0 <= k < old(mem).state().data.len(),
    ensures
        final(mem).state().words == old(mem).state().words,
        final(mem).state().data.len() == old(mem).state().data.len(),
        final(mem).state().data[(off + k) % (old(mem).state().data.len() as int)] == (if k
            < data@.len() {
            data@[k]
        } else {
            old(mem).state().data[(off + k) % (old(mem).state().data.len() as int)]
        }),
        forall|i: int|
            0 <= i < old(buf)@.len() ==> #[trigger] final(buf)@[i] == final(mem).state().data[(at
                + i) % (old(mem).state().data.len() as int)],
{
    let s: RingState = old(mem).state();
    s.lemma_write_shape(off as int, data@);
    s.lemma_write_data(off as int, data@, k);
}

/// Law: a collector keeps every offer and every rescind in order, and hears
/// of nothing else.
pub proof fn law_collector(
    c: &mut OfferCollector,
    result: &TlConnectResult,
)
    requires
        call_ensures(<OfferCollector as MessageSink>::tl_connect_result, (c, result), ()),
    ensures
        final(c).offers@ == old(c).offers@,
        final(c).rescinds@ == old(c).rescinds@,
{
}

/// Law: a sink with a handler passes everything on, and the handler hears of
/// connect results and of nothing else.
pub proof fn law_handler_sink<S: MessageSink, H: ConnectResultHandler>(
    a: &mut HandlerSink<S, H>,
    offer: &OfferChannel,
    b: &mut HandlerSink<S, H>,
    rescind: &RescindChannelOffer,
    c: &mut HandlerSink<S, H>,
    result: &TlConnectResult,
)
    requires
        call_ensures(<HandlerSink<S, H> as MessageSink>::offer, (a, offer), ()),
        call_ensures(<HandlerSink<S, H> as MessageSink>::rescind, (b, rescind), ()),
        call_ensures(<HandlerSink<S, H> as MessageSink>::tl_connect_result, (c, result), ()),
    ensures
        old(a).inner.offered(*offer, final(a).inner),
        final(a).handler == old(a).handler,
        old(b).inner.rescinded(*rescind, final(b).inner),
        final(b).handler == old(b).handler,
        old(c).inner.connect_answered(*result, final(c).inner),
        old(c).handler is None <==> final(c).handler is None,
        old(c).handler is Some ==> old(c).handler->0.handled(*result, final(c).handler->0),
{
}

/// Law: a deserializer is new, learns the functions, and then the mapping.
pub proof fn law_deserializer_made<D: Deserializer>(
    registry: &FunctionRegistry,
    mapping: &D::Mapping,
    r: (D, core::result::Result<(), ExecutorError>),
)
    requires
        call_ensures(make_deserializer::<D>, (registry, mapping), r),
    ensures
        executors::makes_deserializer(registry@, *mapping, r.0, r.1),
{
}

/// Law: each group of functions is added behind what is registered.
pub proof fn law_groups_registered(
    a: &mut FunctionRegistry,
    b: &mut FunctionRegistry,
    c: &mut FunctionRegistry,
)
    requires
        call_ensures(executor::register_port_functions, (a,), ()),
        call_ensures(executor::register_common_functions, (b,), ()),
        call_ensures(executor::register_vmbus_functions, (c,), ()),
    ensures
        final(a)@ == old(a)@ + executors::on_ports(),
        final(b)@ == old(b)@ + executors::on_devices(),
        final(c)@ == old(c)@ + executors::on_bus(),
{
}

} // verus!
