//! Sessions: how they come up, what goes over the network device, and how
//! they are reset.
use crate::channel;
use crate::channel::Channel;
use crate::connection;
use crate::devices::link;
use crate::devices::netvsp as device;
use crate::devices::netvsp::rndis::Rndis;
use crate::devices::netvsp::Netvsp;
use crate::devices::netvsp::Version;
use crate::error::Error;
use crate::error::Result;
use crate::error::TmkError;
use crate::executor::Sessions;
use crate::functions;
use crate::functions::netvsp;
use crate::functions::netvsp::NetvspSession;
use crate::functions::netvsp::NicBacking;
use crate::functions::netvsp::NicMemory;
use crate::functions::sessions::GuestSessions;
use crate::functions::vmbus;
use crate::functions::vmbus::VmbusSession;
use crate::functions::Boot;
use crate::functions::Handled;
use crate::functions::HandlerError;
use crate::functions::NicStep;
use crate::functions::SafeMemoryMap;
use crate::fuzz;
use crate::hvsock::ConnectResultHandler;
use crate::hypercalls::HvCtx;
use crate::hypercalls::HvEvent;
use crate::hypercalls::HypercallTrait;
use crate::laws::channels;
use crate::laws::connecting;
use crate::laws::keys;
use crate::laws::layout;
use crate::laws::messages;
use crate::laws::nics;
use crate::laws::raw;
use crate::laws::slots;
use crate::message::CompletionKey;
use crate::packet::OutPacket;
use crate::protocol;
use crate::protocol::OfferChannel;
use crate::protocol::PacketFlags;
use crate::protocol::Unload;
use crate::ring::RingMem;
use crate::state::VmbusState;
use crate::wire;
use crate::wire::Wire;
use vstd::prelude::*;

verus! {

/// Unloading over the guest's state posted a message of type 16 without a
/// body and waited for it to be confirmed; only then is the connection gone.
pub open spec fn unloads<H: ConnectResultHandler>(
    state: (VmbusState<H>, VmbusState<H>),
    log: (Seq<HvEvent>, Seq<HvEvent>),
    r: Result<()>,
) -> bool {
    &&& if state.0.synic is None || state.0.connection is None {
        r == Err::<(), Error>(Error::VersionMismatch) && log.1 == log.0
    } else {
        connecting::exchanged(
            state.0.connection->0.post_message_connection_id,
            16,
            CompletionKey::UnloadComplete,
            log,
            r,
        )
    }
    &&& r is Ok ==> state.1.connection is None
    &&& r is Err ==> state.1.connection == state.0.connection
    &&& state.1.synic == state.0.synic
}

proof fn lemma_unloads<H: ConnectResultHandler>(
    state: (VmbusState<H>, VmbusState<H>),
    log: (Seq<HvEvent>, Seq<HvEvent>),
    r: Result<()>,
)
    requires
        connection::unloaded(state, log, r),
    ensures
        unloads(state, log, r),
{
    messages::lemma_message(Unload, protocol::message_bytes(Unload));
    if state.0.synic is Some && state.0.connection is Some {
        let n = log.0.len() as int;
        let ev = log.1.skip(n);
        assert(ev[0] == log.1[n]);
        if ev.len() > 1 {
            assert(ev[1] == log.1[n + 1]);
        }
    }
}

/// Law: unloading over the guest's own state.
pub proof fn law_unloaded<C: HypercallTrait, H: ConnectResultHandler>(
    ctx: &mut HvCtx<C>,
    state: &mut VmbusState<H>,
    r: Result<()>,
)
    requires
        call_ensures(crate::unload::<C, H>, (ctx, state), r),
    ensures
        unloads((*old(state), *final(state)), (old(ctx).log(), final(ctx).log()), r),
{
    lemma_unloads((*old(state), *final(state)), (old(ctx).log(), final(ctx).log()), r);
}

/// Law: an RNDIS message whose first word is 1 is data and goes over channel
/// 0; any other, and what is too short to have a word, goes over channel 1.
pub proof fn law_rndis_channel(msg: &[u8], r: u32)
    requires
        call_ensures(netvsp::rndis_channel_type, (msg,), r),
    ensures
        r == rndis_over(msg@),
{
    lemma_rndis_over(msg@);
}

/// The channel of an RNDIS message.
pub open spec fn rndis_over(msg: Seq<u8>) -> int {
    if msg.len() >= 4 && layout::word32(msg, 0) == 1 {
        0
    } else {
        1
    }
}

proof fn lemma_rndis_over(msg: Seq<u8>)
    ensures
        netvsp::rndis_channel(msg) == rndis_over(msg),
{
    if msg.len() >= 4 {
        let one: u32 = 1;
        one.lemma_wire_len();
        let b = msg.take(4);
        let v = wire::decoded::<u32>(b);
        crate::laws::decoding::law_u32_decodes(b);
        assert(msg.subrange(0, 4) =~= b);
        layout::law_word32(v, msg, 0);
        if b == one.wire() {
            layout::law_word32(one, msg, 0);
        }
    }
}

/// The lowest bit of the flags is set.
pub open spec fn odd(flags: u64) -> bool {
    flags % 2 == 1
}

/// A program's input of up to 65536 bytes at `at` is `b`.
pub open spec fn takes_input<G: SafeMemoryMap>(
    mem: (G, G),
    at: usize,
    len: usize,
    b: Seq<u8>,
) -> bool {
    &&& b.len() == len
    &&& len == 0 ==> mem.1 == mem.0
    &&& len > 0 ==> mem.0.mem_read(at, len as nat, Some(b), mem.1)
}

/// A program's NVSP message `frame` went over the device: where an answer is
/// wanted, with the next transaction number and flag 1, and otherwise with
/// transaction 0 and no flags.
pub open spec fn posts_frame<C, M: RingMem>(
    session: (NetvspSession<C, M>, NetvspSession<C, M>),
    log: (Seq<HvEvent>, Seq<HvEvent>),
    frame: Seq<u8>,
    wanted: bool,
    sent: Result<()>,
) -> bool {
    if wanted {
        exists|reply: Result<Seq<u8>>| #[trigger]
            nics::asks(session.0.nic, frame, log, session.1.nic, reply) && sent == match reply {
                Ok(_) => Ok(()),
                Err(e) => Err(e),
            }
    } else {
        &&& session.1.nic.next_transaction_id == session.0.nic.next_transaction_id
        &&& session.1.nic.version == session.0.nic.version
        &&& exists|p: OutPacket|
            {
                &&& #[trigger] nics::posts(session.0.nic.link, p, log, session.1.nic.link, sent)
                &&& keys::inband(p, 0, 0)
                &&& p.payload == frame
            }
    }
}

/// Law: a program's NVSP message of up to 65536 bytes is posted as it is, and
/// an answer asked for exactly if the lowest bit of the flags is set; a longer
/// one is refused.
pub proof fn law_nvsp_posted<
    C: Rndis<M>,
    M: RingMem,
    H: ConnectResultHandler,
    G: SafeMemoryMap,
    F: FnOnce() -> core::result::Result<Boot<C>, TmkError>,
    A: FnOnce() -> NicMemory<M>,
>(
    cell: &mut Option<NetvspSession<C, M>>,
    boot: F,
    memory: A,
    state: &mut VmbusState<H>,
    mem: &mut G,
    pkt: usize,
    pkt_len: usize,
    flags: u64,
    r: Handled<()>,
)
    requires
        call_ensures(
            netvsp::send_nvsp::<C, M, H, G, F, A>,
            (cell, boot, memory, state, mem, pkt, pkt_len, flags),
            r,
        ),
    ensures
        pkt_len > 65536 ==> {
            &&& r == Err::<(), HandlerError>(HandlerError::TooLong { len: pkt_len, max: 65536 })
            &&& *final(cell) == *old(cell)
            &&& *final(state) == *old(state)
            &&& *final(mem) == *old(mem)
        },
        pkt_len <= 65536 && *old(cell) is Some ==> {
            &&& *final(state) == *old(state)
            &&& {
                ||| {
                    &&& r == Err::<(), HandlerError>(HandlerError::ReadFault)
                    &&& pkt_len > 0
                    &&& *final(cell) == *old(cell)
                }
                ||| exists|frame: Seq<u8>, sent: Result<()>|
                    {
                        &&& takes_input((*old(mem), *final(mem)), pkt, pkt_len, frame)
                        &&& *final(cell) is Some
                        &&& #[trigger] posts_frame(
                            (old(cell)->0, final(cell)->0),
                            (old(cell)->0.ctx.log(), final(cell)->0.ctx.log()),
                            frame,
                            odd(flags),
                            sent,
                        )
                        &&& r == match sent {
                            Ok(_) => Ok(()),
                            Err(e) => Err(HandlerError::Bus(e)),
                        }
                    }
            }
        },
{
    let read = choose|read: Handled<Seq<u8>>| #[trigger]
        functions::input_read(
            (*old(mem), *final(mem)),
            pkt,
            pkt_len,
            netvsp::MAX_FUZZ_MSG_LEN,
            read,
        ) && match read {
            Err(e) => {
                &&& r == Err::<(), HandlerError>(e)
                &&& *final(cell) == *old(cell)
                &&& *final(state) == *old(state)
            },
            Ok(frame) => exists|mid: Option<NetvspSession<C, M>>, up: Handled<()>| #[trigger]
                netvsp::session_up(
                    boot,
                    memory,
                    (*old(cell), mid),
                    (*old(state), *final(state)),
                    up,
                ) && match up {
                    Err(e) => r == Err::<(), HandlerError>(e) && *final(cell) == mid,
                    Ok(_) => {
                        &&& mid is Some
                        &&& *final(cell) is Some
                        &&& netvsp::nvsp_posted(
                            (mid->0, final(cell)->0),
                            frame,
                            flags % 2 == 1,
                            r,
                        )
                    },
                },
        };
    if pkt_len <= 65536 && *old(cell) is Some && read is Ok {
        let frame = read->Ok_0;
        let a = old(cell)->0;
        let b = final(cell)->0;
        let log = (a.ctx.log(), b.ctx.log());
        let wanted = odd(flags);
        let sent = choose|sent: Result<()>| #[trigger]
            a.nic.posted_raw(frame, wanted, log, b.nic, sent) && r == vmbus::bus(sent);
        if wanted {
            let reply = choose|reply: Result<Seq<u8>>| #[trigger]
                a.nic.asked(frame, device::DEFAULT_MAX_POLLS as nat, (log.0, log.1), b.nic, reply)
                    && sent == match reply {
                    Ok(_) => Ok(()),
                    Err(e) => Err(e),
                };
            nics::lemma_asks(
                a.nic,
                frame,
                device::DEFAULT_MAX_POLLS as nat,
                (log.0, log.1),
                b.nic,
                reply,
            );
        } else {
            let p = link::inband(frame, PacketFlags(0), 0);
            nics::lemma_posts(a.nic.link, p, log, b.nic.link, sent);
        }
        assert(posts_frame((a, b), log, frame, wanted, sent));
    }
}

/// Law: a program's RNDIS message is not empty and no longer than 65536 bytes;
/// it goes over the channel of its type, and an answer is asked for exactly if
/// the lowest bit of the flags is set.
pub proof fn law_rndis_posted<
    C: Rndis<M>,
    M: RingMem,
    H: ConnectResultHandler,
    G: SafeMemoryMap,
    F: FnOnce() -> core::result::Result<Boot<C>, TmkError>,
    A: FnOnce() -> NicMemory<M>,
>(
    cell: &mut Option<NetvspSession<C, M>>,
    boot: F,
    memory: A,
    state: &mut VmbusState<H>,
    mem: &mut G,
    rndis: usize,
    rndis_len: usize,
    flags: u64,
    r: Handled<()>,
)
    requires
        call_ensures(
            netvsp::send_rndis::<C, M, H, G, F, A>,
            (cell, boot, memory, state, mem, rndis, rndis_len, flags),
            r,
        ),
    ensures
        rndis_len == 0 || rndis_len > 65536 ==> {
            &&& r is Err
            &&& rndis_len == 0 ==> r->Err_0 is Empty
            &&& rndis_len > 0 ==> r->Err_0 == (HandlerError::TooLong {
                len: rndis_len,
                max: 65536,
            })
            &&& *final(cell) == *old(cell)
            &&& *final(state) == *old(state)
            &&& *final(mem) == *old(mem)
        },
        0 < rndis_len <= 65536 && *old(cell) is Some ==> {
            &&& *final(state) == *old(state)
            &&& {
                ||| {
                    &&& r == Err::<(), HandlerError>(HandlerError::ReadFault)
                    &&& *final(cell) == *old(cell)
                }
                ||| exists|message: Seq<u8>, sent: Result<()>|
                    {
                        &&& takes_input((*old(mem), *final(mem)), rndis, rndis_len, message)
                        &&& *final(cell) is Some
                        &&& #[trigger] C::rndis_sent(
                            (old(cell)->0.nic, final(cell)->0.nic),
                            (old(cell)->0.ctx, final(cell)->0.ctx),
                            rndis_over(message) as u32,
                            message,
                            odd(flags),
                            sent,
                        )
                        &&& r == match sent {
                            Ok(_) => Ok(()),
                            Err(e) => Err(HandlerError::Bus(e)),
                        }
                    }
            }
        },
{
    if 0 < rndis_len <= 65536 && *old(cell) is Some {
        let read = choose|read: Handled<Seq<u8>>| #[trigger]
            functions::input_read(
                (*old(mem), *final(mem)),
                rndis,
                rndis_len,
                netvsp::MAX_FUZZ_MSG_LEN,
                read,
            ) && match read {
                Err(e) => {
                    &&& r == Err::<(), HandlerError>(e)
                    &&& *final(cell) == *old(cell)
                    &&& *final(state) == *old(state)
                },
                Ok(msg) => exists|mid: Option<NetvspSession<C, M>>, up: Handled<()>| #[trigger]
                    netvsp::session_up(
                        boot,
                        memory,
                        (*old(cell), mid),
                        (*old(state), *final(state)),
                        up,
                    ) && match up {
                        Err(e) => r == Err::<(), HandlerError>(e) && *final(cell) == mid,
                        Ok(_) => {
                            &&& mid is Some
                            &&& *final(cell) is Some
                            &&& netvsp::rndis_posted(
                                (mid->0, final(cell)->0),
                                msg,
                                flags % 2 == 1,
                                r,
                            )
                        },
                    },
            };
        if read is Ok {
            let msg = read->Ok_0;
            lemma_rndis_over(msg);
            let wanted = odd(flags);
            let a = old(cell)->0;
            let b = final(cell)->0;
            let sent = choose|sent: Result<()>| #[trigger]
                C::rndis_sent(
                    (a.nic, b.nic),
                    (a.ctx, b.ctx),
                    netvsp::rndis_channel(msg),
                    msg,
                    wanted,
                    sent,
                ) && r == vmbus::bus(sent);
            assert(C::rndis_sent(
                (a.nic, b.nic),
                (a.ctx, b.ctx),
                rndis_over(msg) as u32,
                msg,
                wanted,
                sent,
            ));
        }
    }
}

/// Law: renewing with 0 renews the receive buffer, with any other number the
/// send buffer.
pub proof fn law_buffer_renewed<
    C: Rndis<M>,
    M: RingMem,
    H: ConnectResultHandler,
    F: FnOnce() -> core::result::Result<Boot<C>, TmkError>,
    A: FnOnce() -> NicMemory<M>,
>(
    cell: &mut Option<NetvspSession<C, M>>,
    boot: F,
    memory: A,
    state: &mut VmbusState<H>,
    is_send_buffer: u64,
    r: Handled<()>,
)
    requires
        *old(cell) is Some,
        call_ensures(
            netvsp::renew_buffer::<C, M, H, F, A>,
            (cell, boot, memory, state, is_send_buffer),
            r,
        ),
    ensures
        *final(cell) is Some,
        *final(state) == *old(state),
        exists|send: bool, renewed: Result<()>|
            {
                &&& send <==> is_send_buffer > 0
                &&& #[trigger] C::renewed(
                    send,
                    (old(cell)->0.nic, final(cell)->0.nic),
                    (old(cell)->0.ctx, final(cell)->0.ctx),
                    renewed,
                )
                &&& r == match renewed {
                    Ok(_) => Ok(()),
                    Err(e) => Err(HandlerError::Bus(e)),
                }
            },
{
    let a = old(cell)->0;
    let b = final(cell)->0;
    let send = is_send_buffer > 0;
    let renewed = choose|renewed: Result<()>| #[trigger]
        C::renewed(send, (a.nic, b.nic), (a.ctx, b.ctx), renewed) && r == vmbus::bus(renewed);
    assert(C::renewed(send, (a.nic, b.nic), (a.ctx, b.ctx), renewed));
}

/// The steps that bring the network device up, by their number.
pub open spec fn step_name(k: int) -> NicStep {
    if k == 0 {
        NicStep::Open
    } else if k == 1 {
        NicStep::NegotiateVersion
    } else if k == 2 {
        NicStep::SendNdisConfig
    } else if k == 3 {
        NicStep::SendNdisVersion
    } else if k == 4 {
        NicStep::EstablishRecvBuffer
    } else if k == 5 {
        NicStep::EstablishSendBuffer
    } else if k == 6 {
        NicStep::RndisInit
    } else {
        NicStep::SetPacketFilter
    }
}

/// The walk down the ladder of versions went like this.
pub open spec fn walks_ladder<M: RingMem>(
    nic: Netvsp<M>,
    log: (Seq<HvEvent>, Seq<HvEvent>),
    next: Netvsp<M>,
    done: Result<()>,
) -> bool {
    exists|v: Result<Version>| #[trigger]
        device::ladder_walk(nic, device::NEGOTIATION_LADDER@, log, next, v) && match v {
            Ok(_) => done is Ok,
            Err(e) => done == Err::<(), Error>(e),
        }
}

/// Step `k` went like this: the channel is opened, the version negotiated, an
/// MTU of 1514 told, the NDIS version told, a receive buffer of 256 KiB and a
/// send buffer of 1 MiB established, RNDIS initialised, and the filter set to
/// directed (1), all multicast (4) and broadcast (8) packets.
pub open spec fn step_goes<C: Rndis<M>, M: RingMem, H: ConnectResultHandler>(
    k: int,
    state: (VmbusState<H>, VmbusState<H>),
    ctx: (HvCtx<C>, HvCtx<C>),
    offer: OfferChannel,
    memory: NicMemory<M>,
    nic: (Netvsp<M>, Netvsp<M>),
    done: Result<()>,
    i: int,
) -> bool {
    let log = (ctx.0.log(), ctx.1.log());
    &&& ctx.0.ran_to(ctx.1)
    &&& k == 0 || k == 4 || k == 5 || state.1 == state.0
    &&& k == 0 ==> device::nic_opened(
        state,
        log,
        offer,
        memory.rings,
        match done {
            Ok(_) => Ok(nic.1),
            Err(e) => Err(e),
        },
    )
    &&& k == 1 ==> walks_ladder(nic.0, log, nic.1, done)
    &&& k == 2 ==> device::config_sent(nic.0, 1514, log, nic.1, done)
    &&& k == 3 ==> device::ndis_version_sent(nic.0, log, nic.1, done)
    &&& k == 4 ==> nics::establishes(
        nic.0,
        true,
        state,
        log,
        262144,
        memory.recv_gpa,
        nic.1,
        done,
        i,
    )
    &&& k == 5 ==> nics::establishes(
        nic.0,
        false,
        state,
        log,
        1048576,
        memory.send_gpa,
        nic.1,
        done,
        i,
    )
    &&& k == 6 ==> C::rndis_started(nic, ctx, done)
    &&& k == 7 ==> C::packet_filter_set(nic, ctx, 0xd, done)
}

/// The steps from `k` on went like this: one after the other, up to the first
/// that fails, which is named.
pub open spec fn brings_up<C: Rndis<M>, M: RingMem, H: ConnectResultHandler>(
    k: int,
    state: (VmbusState<H>, VmbusState<H>),
    ctx: (HvCtx<C>, HvCtx<C>),
    offer: OfferChannel,
    memory: NicMemory<M>,
    nic: Netvsp<M>,
    r: Handled<Netvsp<M>>,
    i: int,
) -> bool
    decreases 8 - k,
{
    if k >= 8 {
        &&& r == Ok::<Netvsp<M>, HandlerError>(nic)
        &&& state.1 == state.0
        &&& ctx.1 == ctx.0
    } else {
        exists|mid: VmbusState<H>, mid_ctx: HvCtx<C>, next: Netvsp<M>, done: Result<()>| #[trigger]
            step_goes(
                k,
                (state.0, mid),
                (ctx.0, mid_ctx),
                offer,
                memory,
                (nic, next),
                done,
                i,
            ) && match done {
                Err(e) => {
                    &&& r == Err::<Netvsp<M>, HandlerError>(HandlerError::Nic(step_name(k), e))
                    &&& state.1 == mid
                    &&& ctx.1 == mid_ctx
                },
                Ok(_) => brings_up(
                    k + 1,
                    (mid, state.1),
                    (mid_ctx, ctx.1),
                    offer,
                    memory,
                    next,
                    r,
                    i,
                ),
            }
    }
}

proof fn lemma_step<C: Rndis<M>, M: RingMem, H: ConnectResultHandler>(
    k: int,
    state: (VmbusState<H>, VmbusState<H>),
    ctx: (HvCtx<C>, HvCtx<C>),
    offer: OfferChannel,
    memory: NicMemory<M>,
    nic: Netvsp<M>,
    r: Handled<Netvsp<M>>,
    i: int,
    mid: VmbusState<H>,
    mid_ctx: HvCtx<C>,
    next: Netvsp<M>,
    done: Result<()>,
)
    requires
        0 <= k < 8,
        step_goes(k, (state.0, mid), (ctx.0, mid_ctx), offer, memory, (nic, next), done, i),
        match done {
            Err(e) => {
                &&& r == Err::<Netvsp<M>, HandlerError>(HandlerError::Nic(step_name(k), e))
                &&& state.1 == mid
                &&& ctx.1 == mid_ctx
            },
            Ok(_) => brings_up(
                k + 1,
                (mid, state.1),
                (mid_ctx, ctx.1),
                offer,
                memory,
                next,
                r,
                i,
            ),
        },
    ensures
        brings_up(k, state, ctx, offer, memory, nic, r, i),
{
}

proof fn lemma_from_filter<C: Rndis<M>, M: RingMem, H: ConnectResultHandler>(
    s: VmbusState<H>,
    ctx: (HvCtx<C>, HvCtx<C>),
    offer: OfferChannel,
    memory: NicMemory<M>,
    nic: Netvsp<M>,
    r: Handled<Netvsp<M>>,
    i: int,
)
    requires
        netvsp::from_packet_filter(nic, ctx, r),
    ensures
        brings_up(7, (s, s), ctx, offer, memory, nic, r, i),
{
    let (next, done) = choose|next: Netvsp<M>, done: Result<()>| #[trigger]
        C::packet_filter_set((nic, next), (ctx.0, ctx.1), netvsp::PACKET_FILTER, done)
            && match done {
            Err(e) => r == Err::<Netvsp<M>, HandlerError>(
                HandlerError::Nic(NicStep::SetPacketFilter, e),
            ),
            Ok(_) => r == Ok::<Netvsp<M>, HandlerError>(next),
        };
    if done is Ok {
        assert(brings_up(8, (s, s), (ctx.1, ctx.1), offer, memory, next, r, i));
    }
    lemma_step(7, (s, s), ctx, offer, memory, nic, r, i, s, ctx.1, next, done);
}

proof fn lemma_from_rndis<C: Rndis<M>, M: RingMem, H: ConnectResultHandler>(
    s: VmbusState<H>,
    ctx: (HvCtx<C>, HvCtx<C>),
    offer: OfferChannel,
    memory: NicMemory<M>,
    nic: Netvsp<M>,
    r: Handled<Netvsp<M>>,
    i: int,
)
    requires
        netvsp::from_rndis(nic, ctx, r),
    ensures
        brings_up(6, (s, s), ctx, offer, memory, nic, r, i),
{
    let (mid_ctx, next, done) = choose|mid_ctx: HvCtx<C>, next: Netvsp<M>, done: Result<()>|
        #[trigger]
        C::rndis_started((nic, next), (ctx.0, mid_ctx), done) && ctx.0.ran_to(mid_ctx)
            && match done {
            Err(e) => {
                &&& r == Err::<Netvsp<M>, HandlerError>(HandlerError::Nic(NicStep::RndisInit, e))
                &&& ctx.1 == mid_ctx
            },
            Ok(_) => netvsp::from_packet_filter(next, (mid_ctx, ctx.1), r),
        };
    if done is Ok {
        lemma_from_filter(s, (mid_ctx, ctx.1), offer, memory, next, r, i);
    }
    lemma_step(6, (s, s), ctx, offer, memory, nic, r, i, s, mid_ctx, next, done);
}

proof fn lemma_from_send<C: Rndis<M>, M: RingMem, H: ConnectResultHandler>(
    state: (VmbusState<H>, VmbusState<H>),
    ctx: (HvCtx<C>, HvCtx<C>),
    offer: OfferChannel,
    memory: NicMemory<M>,
    nic: Netvsp<M>,
    r: Handled<Netvsp<M>>,
    i: int,
)
    requires
        netvsp::from_send_buffer(nic, state, ctx, memory.send_gpa, r),
    ensures
        brings_up(5, state, ctx, offer, memory, nic, r, i),
{
    let (mid, mid_ctx, next, done) = choose|
        mid: VmbusState<H>,
        mid_ctx: HvCtx<C>,
        next: Netvsp<M>,
        done: Result<()>,
    | #[trigger]
        device::buffer_established(
            nic,
            false,
            (state.0, mid),
            (ctx.0.log(), mid_ctx.log()),
            netvsp::SEND_BUFFER_SIZE,
            memory.send_gpa,
            next,
            done,
        ) && ctx.0.ran_to(mid_ctx) && match done {
            Err(e) => {
                &&& r == Err::<Netvsp<M>, HandlerError>(
                    HandlerError::Nic(NicStep::EstablishSendBuffer, e),
                )
                &&& state.1 == mid
                &&& ctx.1 == mid_ctx
            },
            Ok(_) => state.1 == mid && netvsp::from_rndis(next, (mid_ctx, ctx.1), r),
        };
    nics::lemma_establishes(
        nic,
        false,
        (state.0, mid),
        (ctx.0.log(), mid_ctx.log()),
        1048576,
        memory.send_gpa,
        next,
        done,
        i,
    );
    if done is Ok {
        lemma_from_rndis(mid, (mid_ctx, ctx.1), offer, memory, next, r, i);
    }
    lemma_step(5, state, ctx, offer, memory, nic, r, i, mid, mid_ctx, next, done);
}

proof fn lemma_from_recv<C: Rndis<M>, M: RingMem, H: ConnectResultHandler>(
    state: (VmbusState<H>, VmbusState<H>),
    ctx: (HvCtx<C>, HvCtx<C>),
    offer: OfferChannel,
    memory: NicMemory<M>,
    nic: Netvsp<M>,
    r: Handled<Netvsp<M>>,
    i: int,
)
    requires
        netvsp::from_recv_buffer(nic, state, ctx, (memory.recv_gpa, memory.send_gpa), r),
    ensures
        brings_up(4, state, ctx, offer, memory, nic, r, i),
{
    let (mid, mid_ctx, next, done) = choose|
        mid: VmbusState<H>,
        mid_ctx: HvCtx<C>,
        next: Netvsp<M>,
        done: Result<()>,
    | #[trigger]
        device::buffer_established(
            nic,
            true,
            (state.0, mid),
            (ctx.0.log(), mid_ctx.log()),
            netvsp::RECV_BUFFER_SIZE,
            memory.recv_gpa,
            next,
            done,
        ) && ctx.0.ran_to(mid_ctx) && match done {
            Err(e) => {
                &&& r == Err::<Netvsp<M>, HandlerError>(
                    HandlerError::Nic(NicStep::EstablishRecvBuffer, e),
                )
                &&& state.1 == mid
                &&& ctx.1 == mid_ctx
            },
            Ok(_) => netvsp::from_send_buffer(
                next,
                (mid, state.1),
                (mid_ctx, ctx.1),
                memory.send_gpa,
                r,
            ),
        };
    nics::lemma_establishes(
        nic,
        true,
        (state.0, mid),
        (ctx.0.log(), mid_ctx.log()),
        262144,
        memory.recv_gpa,
        next,
        done,
        i,
    );
    if done is Ok {
        lemma_from_send((mid, state.1), (mid_ctx, ctx.1), offer, memory, next, r, i);
    }
    lemma_step(4, state, ctx, offer, memory, nic, r, i, mid, mid_ctx, next, done);
}

proof fn lemma_from_version<C: Rndis<M>, M: RingMem, H: ConnectResultHandler>(
    state: (VmbusState<H>, VmbusState<H>),
    ctx: (HvCtx<C>, HvCtx<C>),
    offer: OfferChannel,
    memory: NicMemory<M>,
    nic: Netvsp<M>,
    r: Handled<Netvsp<M>>,
    i: int,
)
    requires
        netvsp::from_ndis_version(nic, state, ctx, (memory.recv_gpa, memory.send_gpa), r),
    ensures
        brings_up(3, state, ctx, offer, memory, nic, r, i),
{
    let (mid_ctx, next, done) = choose|mid_ctx: HvCtx<C>, next: Netvsp<M>, done: Result<()>|
        #[trigger]
        device::ndis_version_sent(nic, (ctx.0.log(), mid_ctx.log()), next, done) && ctx.0.ran_to(
            mid_ctx,
        ) && match done {
            Err(e) => {
                &&& r == Err::<Netvsp<M>, HandlerError>(
                    HandlerError::Nic(NicStep::SendNdisVersion, e),
                )
                &&& state.1 == state.0
                &&& ctx.1 == mid_ctx
            },
            Ok(_) => netvsp::from_recv_buffer(
                next,
                state,
                (mid_ctx, ctx.1),
                (memory.recv_gpa, memory.send_gpa),
                r,
            ),
        };
    if done is Ok {
        lemma_from_recv(state, (mid_ctx, ctx.1), offer, memory, next, r, i);
    }
    lemma_step(3, state, ctx, offer, memory, nic, r, i, state.0, mid_ctx, next, done);
}

proof fn lemma_from_config<C: Rndis<M>, M: RingMem, H: ConnectResultHandler>(
    state: (VmbusState<H>, VmbusState<H>),
    ctx: (HvCtx<C>, HvCtx<C>),
    offer: OfferChannel,
    memory: NicMemory<M>,
    nic: Netvsp<M>,
    r: Handled<Netvsp<M>>,
    i: int,
)
    requires
        netvsp::from_ndis_config(nic, state, ctx, (memory.recv_gpa, memory.send_gpa), r),
    ensures
        brings_up(2, state, ctx, offer, memory, nic, r, i),
{
    let (mid_ctx, next, done) = choose|mid_ctx: HvCtx<C>, next: Netvsp<M>, done: Result<()>|
        #[trigger]
        device::config_sent(
            nic,
            netvsp::DEFAULT_MTU,
            (ctx.0.log(), mid_ctx.log()),
            next,
            done,
        ) && ctx.0.ran_to(mid_ctx) && match done {
            Err(e) => {
                &&& r == Err::<Netvsp<M>, HandlerError>(
                    HandlerError::Nic(NicStep::SendNdisConfig, e),
                )
                &&& state.1 == state.0
                &&& ctx.1 == mid_ctx
            },
            Ok(_) => netvsp::from_ndis_version(
                next,
                state,
                (mid_ctx, ctx.1),
                (memory.recv_gpa, memory.send_gpa),
                r,
            ),
        };
    if done is Ok {
        lemma_from_version(state, (mid_ctx, ctx.1), offer, memory, next, r, i);
    }
    lemma_step(2, state, ctx, offer, memory, nic, r, i, state.0, mid_ctx, next, done);
}

proof fn lemma_from_negotiation<C: Rndis<M>, M: RingMem, H: ConnectResultHandler>(
    state: (VmbusState<H>, VmbusState<H>),
    ctx: (HvCtx<C>, HvCtx<C>),
    offer: OfferChannel,
    memory: NicMemory<M>,
    nic: Netvsp<M>,
    r: Handled<Netvsp<M>>,
    i: int,
)
    requires
        netvsp::from_negotiation(nic, state, ctx, (memory.recv_gpa, memory.send_gpa), r),
    ensures
        brings_up(1, state, ctx, offer, memory, nic, r, i),
{
    let (mid_ctx, next, v) = choose|mid_ctx: HvCtx<C>, next: Netvsp<M>, v: Result<Version>|
        #[trigger]
        device::ladder_walk(
            nic,
            device::NEGOTIATION_LADDER@,
            (ctx.0.log(), mid_ctx.log()),
            next,
            v,
        ) && ctx.0.ran_to(mid_ctx) && match v {
            Err(e) => {
                &&& r == Err::<Netvsp<M>, HandlerError>(
                    HandlerError::Nic(NicStep::NegotiateVersion, e),
                )
                &&& state.1 == state.0
                &&& ctx.1 == mid_ctx
            },
            Ok(_) => netvsp::from_ndis_config(
                next,
                state,
                (mid_ctx, ctx.1),
                (memory.recv_gpa, memory.send_gpa),
                r,
            ),
        };
    let done: Result<()> = match v {
        Ok(_) => Ok(()),
        Err(e) => Err(e),
    };
    if done is Ok {
        lemma_from_config(state, (mid_ctx, ctx.1), offer, memory, next, r, i);
    }
    assert(walks_ladder(nic, (ctx.0.log(), mid_ctx.log()), next, done));
    assert(step_goes(
        1,
        (state.0, state.0),
        (ctx.0, mid_ctx),
        offer,
        memory,
        (nic, next),
        done,
        i,
    ));
    lemma_step(1, state, ctx, offer, memory, nic, r, i, state.0, mid_ctx, next, done);
}

proof fn lemma_brings_up<C: Rndis<M>, M: RingMem, H: ConnectResultHandler>(
    state: (VmbusState<H>, VmbusState<H>),
    ctx: (HvCtx<C>, HvCtx<C>),
    offer: OfferChannel,
    memory: NicMemory<M>,
    nic: Netvsp<M>,
    r: Handled<Netvsp<M>>,
    i: int,
)
    requires
        netvsp::nic_up(state, ctx, offer, memory, r),
    ensures
        brings_up(0, state, ctx, offer, memory, nic, r, i),
{
    let (mid, mid_ctx, opened) = choose|
        mid: VmbusState<H>,
        mid_ctx: HvCtx<C>,
        opened: Result<Netvsp<M>>,
    | #[trigger]
        device::nic_opened(
            (state.0, mid),
            (ctx.0.log(), mid_ctx.log()),
            offer,
            memory.rings,
            opened,
        ) && ctx.0.ran_to(mid_ctx) && match opened {
            Err(e) => {
                &&& r == Err::<Netvsp<M>, HandlerError>(HandlerError::Nic(NicStep::Open, e))
                &&& state.1 == mid
                &&& ctx.1 == mid_ctx
            },
            Ok(nic) => netvsp::from_negotiation(
                nic,
                (mid, state.1),
                (mid_ctx, ctx.1),
                (memory.recv_gpa, memory.send_gpa),
                r,
            ),
        };
    match opened {
        Ok(next) => {
            lemma_from_negotiation((mid, state.1), (mid_ctx, ctx.1), offer, memory, next, r, i);
            lemma_step(0, state, ctx, offer, memory, nic, r, i, mid, mid_ctx, next, Ok(()));
        },
        Err(e) => {
            lemma_step(0, state, ctx, offer, memory, nic, r, i, mid, mid_ctx, nic, Err(e));
        },
    }
}

/// Law: bringing the network device up takes eight steps.
pub proof fn law_device_brought_up<C: Rndis<M>, M: RingMem, H: ConnectResultHandler>(
    ctx: &mut HvCtx<C>,
    state: &mut VmbusState<H>,
    offer: &OfferChannel,
    memory: NicMemory<M>,
    r: Handled<Netvsp<M>>,
    nic: Netvsp<M>,
    i: int,
)
    requires
        call_ensures(
            netvsp::open_netvsp_channel::<C, M, H>,
            (ctx, state, offer, memory),
            r,
        ),
    ensures
        brings_up(
            0,
            (*old(state), *final(state)),
            (*old(ctx), *final(ctx)),
            *offer,
            memory,
            nic,
            r,
            i,
        ),
{
    lemma_brings_up(
        (*old(state), *final(state)),
        (*old(ctx), *final(ctx)),
        *offer,
        memory,
        nic,
        r,
        i,
    );
}

/// Law: a device that is up is kept, and nothing asked of the platform.
pub proof fn law_device_kept<
    C: Rndis<M>,
    M: RingMem,
    H: ConnectResultHandler,
    F: FnOnce() -> core::result::Result<Boot<C>, TmkError>,
    A: FnOnce() -> NicMemory<M>,
>(
    cell: &mut Option<NetvspSession<C, M>>,
    boot: F,
    memory: A,
    state: &mut VmbusState<H>,
    r: Handled<()>,
)
    requires
        call_ensures(netvsp::with_session::<C, M, H, F, A>, (cell, boot, memory, state), r)
            || call_ensures(netvsp::open_channel::<C, M, H, F, A>, (cell, boot, memory, state), r),
    ensures
        *old(cell) is Some ==> r is Ok && *final(cell) == *old(cell) && *final(state) == *old(state),
        r is Ok <==> *final(cell) is Some,
        *old(cell) is None ==> exists|b: core::result::Result<Boot<C>, TmkError>|
            {
                &&& #[trigger] call_ensures(boot, (), b)
                &&& b matches Err(e) ==> r == Err::<(), HandlerError>(HandlerError::Context(e))
                    && *final(state) == *old(state)
                &&& r is Ok ==> b is Ok
            },
{
}

/// Resetting the network device's session went like this: its channel is
/// closed, its memory handed back, and the device brought up again over the
/// same offer; where that fails, the connection is unloaded and there is no
/// session.
pub open spec fn resets_device<
    C: Rndis<M>,
    M: RingMem,
    H: ConnectResultHandler,
    A: FnOnce(NicBacking) -> NicMemory<M>,
>(
    cell: (Option<NetvspSession<C, M>>, Option<NetvspSession<C, M>>),
    recycle: A,
    state: (VmbusState<H>, VmbusState<H>),
    nic: Netvsp<M>,
    i: int,
) -> bool {
    match cell.0 {
        None => cell.1 is None && state.1 == state.0,
        Some(s) => exists|shut: HvCtx<C>, memory: NicMemory<M>|
            {
                &&& closes_over(
                    state.0,
                    s.nic.link.channel,
                    (s.ctx.log(), shut.log()),
                )
                &&& #[trigger] call_ensures(
                    recycle,
                    (NicBacking {
                        ring_gpa: s.ring_gpa,
                        recv_buf: s.nic.recv_buf,
                        send_buf: s.nic.send_buf,
                    },),
                    memory,
                )
                &&& #[trigger] s.ctx.ran_to(shut)
                &&& match cell.1 {
                    Some(t) => {
                        &&& t.offer == s.offer
                        &&& t.ring_gpa == (match memory.rings {
                            Some(g) => Some(g.base_gpa),
                            None => None,
                        })
                        &&& brings_up(
                            0,
                            state,
                            (shut, t.ctx),
                            s.offer,
                            memory,
                            nic,
                            Ok(t.nic),
                            i,
                        )
                    },
                    None => exists|
                        mid: VmbusState<H>,
                        mid_ctx: HvCtx<C>,
                        end: HvCtx<C>,
                        e: HandlerError,
                        gone: Result<()>,
                    |
                        {
                            &&& #[trigger] brings_up(
                                0,
                                (state.0, mid),
                                (shut, mid_ctx),
                                s.offer,
                                memory,
                                nic,
                                Err::<Netvsp<M>, HandlerError>(e),
                                i,
                            )
                            &&& #[trigger] unloads(
                                (mid, state.1),
                                (mid_ctx.log(), end.log()),
                                gone,
                            )
                        },
                }
            },
    }
}

/// The channel was closed over the guest's connection.
pub open spec fn closes_over<H: ConnectResultHandler>(
    state: VmbusState<H>,
    channel: Channel,
    log: (Seq<HvEvent>, Seq<HvEvent>),
) -> bool {
    match state.connection {
        None => log.1 == log.0,
        Some(agreed) => exists|closed: Result<()>| #[trigger]
            channels::closes(agreed.post_message_connection_id, channel, log, closed),
    }
}

proof fn lemma_closes_over<H: ConnectResultHandler>(
    state: VmbusState<H>,
    channel: Channel,
    log: (Seq<HvEvent>, Seq<HvEvent>),
    closed: Result<()>,
)
    requires
        channel::closed_over(state.connection, log, channel, closed),
    ensures
        closes_over(state, channel, log),
{
    channels::lemma_close_messages(channel.channel_id);
    if state.connection is Some {
        let n = log.0.len() as int;
        let ev = log.1.skip(n);
        assert(ev[0] == log.1[n]);
        if ev.len() > 1 {
            assert(ev[1] == log.1[n + 1]);
        }
        assert(channels::closes(
            state.connection->0.post_message_connection_id,
            channel,
            log,
            closed,
        ));
    }
}

proof fn lemma_resets_device<
    C: Rndis<M>,
    M: RingMem,
    H: ConnectResultHandler,
    A: FnOnce(NicBacking) -> NicMemory<M>,
>(
    cell: (Option<NetvspSession<C, M>>, Option<NetvspSession<C, M>>),
    recycle: A,
    state: (VmbusState<H>, VmbusState<H>),
    nic: Netvsp<M>,
    i: int,
)
    requires
        netvsp::cell_reset(cell, recycle, state),
    ensures
        resets_device(cell, recycle, state, nic, i),
{
    if cell.0 is Some {
        let s = cell.0->0;
        let (shut, closed, memory) = choose|
            shut: HvCtx<C>,
            closed: Result<()>,
            memory: NicMemory<M>,
        |
            {
                &&& #[trigger] channel::closed_over(
                    state.0.connection,
                    (s.ctx.log(), shut.log()),
                    s.nic.link.channel,
                    closed,
                )
                &&& s.ctx.ran_to(shut)
                &&& #[trigger] call_ensures(recycle, (netvsp::backing_of(s),), memory)
                &&& netvsp::reopened(state, shut, s.offer, memory, cell.1)
            };
        lemma_closes_over(state.0, s.nic.link.channel, (s.ctx.log(), shut.log()), closed);
        assert(call_ensures(
            recycle,
            (NicBacking {
                ring_gpa: s.ring_gpa,
                recv_buf: s.nic.recv_buf,
                send_buf: s.nic.send_buf,
            },),
            memory,
        ));
        match cell.1 {
            Some(t) => {
                lemma_brings_up(state, (shut, t.ctx), s.offer, memory, nic, Ok(t.nic), i);
            },
            None => {
                let (mid, mid_ctx, end, e, gone) = choose|
                    mid: VmbusState<H>,
                    mid_ctx: HvCtx<C>,
                    end: HvCtx<C>,
                    e: HandlerError,
                    gone: Result<()>,
                |
                    #![trigger netvsp::nic_up::<C, M, H>((state.0, mid), (shut, mid_ctx), s.offer, memory, Err(e)), connection::unloaded((mid, state.1), (mid_ctx.log(), end.log()), gone)]
                    netvsp::nic_up::<C, M, H>(
                        (state.0, mid),
                        (shut, mid_ctx),
                        s.offer,
                        memory,
                        Err(e),
                    ) && connection::unloaded(
                        (mid, state.1),
                        (mid_ctx.log(), end.log()),
                        gone,
                    ) && shut.ran_to(mid_ctx) && mid_ctx.ran_to(end);
                lemma_brings_up(
                    (state.0, mid),
                    (shut, mid_ctx),
                    s.offer,
                    memory,
                    nic,
                    Err::<Netvsp<M>, HandlerError>(e),
                    i,
                );
                lemma_unloads((mid, state.1), (mid_ctx.log(), end.log()), gone);
            },
        }
    }
}

/// Law: resetting the network device's session.
pub proof fn law_device_reset<
    C: Rndis<M>,
    M: RingMem,
    H: ConnectResultHandler,
    A: FnOnce(NicBacking) -> NicMemory<M>,
>(
    cell: &mut Option<NetvspSession<C, M>>,
    recycle: A,
    state: &mut VmbusState<H>,
    nic: Netvsp<M>,
    i: int,
)
    requires
        call_ensures(netvsp::reset_session::<C, M, H, A>, (cell, recycle, state), ()),
    ensures
        resets_device(
            (*old(cell), *final(cell)),
            recycle,
            (*old(state), *final(state)),
            nic,
            i,
        ),
{
    lemma_resets_device(
        (*old(cell), *final(cell)),
        recycle,
        (*old(state), *final(state)),
        nic,
        i,
    );
}

/// Reconnecting went like this: a new version is negotiated and the offers
/// asked for.
pub open spec fn reconnects<H: ConnectResultHandler>(
    state: (VmbusState<H>, VmbusState<H>),
    log: (Seq<HvEvent>, Seq<HvEvent>),
    r: Result<Seq<OfferChannel>>,
) -> bool {
    exists|mid: VmbusState<H>, mid_log: Seq<HvEvent>, up: Result<()>|
        {
            &&& #[trigger] connection::initiated((state.0, mid), (log.0, mid_log), up)
            &&& up is Ok ==> mid.connection is Some
            &&& up matches Err(e) ==> r == Err::<Seq<OfferChannel>, Error>(e) && log.1 == mid_log
            &&& up is Ok && r is Ok ==> connecting::exchanged(
                mid.connection->0.post_message_connection_id,
                3,
                CompletionKey::AllOffersDelivered,
                (mid_log, log.1),
                Ok(()),
            ) && r->Ok_0 == connection::offers_in(log.1.last()->Polled_messages)
        }
}

proof fn lemma_reconnects<H: ConnectResultHandler>(
    state: (VmbusState<H>, VmbusState<H>),
    log: (Seq<HvEvent>, Seq<HvEvent>),
    r: Result<Seq<OfferChannel>>,
)
    requires
        vmbus::reconnected(state, log, r),
    ensures
        reconnects(state, log, r),
{
    messages::lemma_message(
        protocol::RequestOffers,
        protocol::message_bytes(protocol::RequestOffers),
    );
    let (mid, mid_log, up) = choose|mid: VmbusState<H>, mid_log: Seq<HvEvent>, up: Result<()>|
        #[trigger]
        connection::initiated((state.0, mid), (log.0, mid_log), up) && match up {
            Err(e) => {
                &&& r == Err::<Seq<OfferChannel>, Error>(e)
                &&& state.1 == mid
                &&& log.1 == mid_log
            },
            Ok(_) => connection::offers_asked((mid, state.1), (mid_log, log.1), r),
        };
    if up is Ok && r is Ok {
        let n = mid_log.len() as int;
        let ev = log.1.skip(n);
        assert(ev[0] == log.1[n]);
        if ev.len() > 1 {
            assert(ev[1] == log.1[n + 1]);
        }
    }
}

/// Resetting the session over the bus itself went like this: up to 64 pending
/// messages are drained, its channel is closed, a connection that is there is
/// unloaded, and a new one made. The session goes on with the new offers and
/// without a channel; where there are none, there is no session.
pub open spec fn resets_bus<C: HypercallTrait, M: RingMem, H: ConnectResultHandler>(
    cell: (Option<VmbusSession<C, M>>, Option<VmbusSession<C, M>>),
    state: (VmbusState<H>, VmbusState<H>),
    freed: Option<u64>,
) -> bool {
    match cell.0 {
        None => freed is None && cell.1 is None && state.1 == state.0,
        Some(s) => {
            &&& freed == (match s.chan {
                Some(c) => Some(c.base_gpa),
                None => None,
            })
            &&& cell.1 matches Some(t) ==> t.chan is None && state.1.connection is Some
            &&& exists|
                drained: (Seq<HvEvent>, VmbusState<H>),
                shut: (Seq<HvEvent>, VmbusState<H>),
                gone: (Seq<HvEvent>, VmbusState<H>),
                end: Seq<HvEvent>,
                r: Result<Seq<OfferChannel>>,
            | #[trigger]
                bus_steps(s, state, drained, shut, gone, end, r) && match cell.1 {
                    Some(t) => end == t.ctx.log() && r == Ok::<Seq<OfferChannel>, Error>(
                        t.offers@,
                    ),
                    None => r is Err,
                }
        },
    }
}

/// A raw channel was closed between the two logs.
pub open spec fn shuts<H: ConnectResultHandler>(
    state: VmbusState<H>,
    channel: Channel,
    from: Seq<HvEvent>,
    to: Seq<HvEvent>,
) -> bool {
    exists|closed: Result<()>| #[trigger] raw::closes_raw(state, channel, (from, to), closed)
}

/// The steps of such a reset, each with the log and the state after it.
pub open spec fn bus_steps<C: HypercallTrait, M: RingMem, H: ConnectResultHandler>(
    s: VmbusSession<C, M>,
    state: (VmbusState<H>, VmbusState<H>),
    drained: (Seq<HvEvent>, VmbusState<H>),
    shut: (Seq<HvEvent>, VmbusState<H>),
    gone: (Seq<HvEvent>, VmbusState<H>),
    end: Seq<HvEvent>,
    r: Result<Seq<OfferChannel>>,
) -> bool {
    &&& s.ctx.log().is_prefix_of(drained.0)
    &&& slots::slot_reads(drained.0.skip(s.ctx.log().len() as int)) <= 64
    &&& match s.chan {
        None => shut == drained,
        Some(c) => shuts(drained.1, c.link.channel, drained.0, shut.0),
    }
    &&& if shut.1.connection is None {
        gone == shut
    } else {
        exists|u: Result<()>| #[trigger] unloads((shut.1, gone.1), (shut.0, gone.0), u)
    }
    &&& reconnects((gone.1, state.1), (gone.0, end), r)
}

proof fn lemma_bus_steps<C: HypercallTrait, M: RingMem, H: ConnectResultHandler>(
    s: VmbusSession<C, M>,
    state: (VmbusState<H>, VmbusState<H>),
    freed: Option<u64>,
    end: HvCtx<C>,
    r: Result<Seq<OfferChannel>>,
) -> (w: ((Seq<HvEvent>, VmbusState<H>), (Seq<HvEvent>, VmbusState<H>), (
    Seq<HvEvent>,
    VmbusState<H>,
)))
    requires
        vmbus::session_reset(s, state, freed, end, r),
    ensures
        bus_steps(s, state, w.0, w.1, w.2, end.log(), r),
        freed == (match s.chan {
            Some(c) => Some(c.base_gpa),
            None => None,
        }),
{
    let (a, a_state, b, b_state) = choose|
        a: VmbusSession<C, M>,
        a_state: VmbusState<H>,
        b: VmbusSession<C, M>,
        b_state: VmbusState<H>,
    |
        {
            &&& vmbus::session_drained(s, state.0, a, a_state)
            &&& #[trigger] vmbus::channel_closed((a, b), (a_state, b_state), freed)
            &&& b.ctx.ran_to(end)
            &&& vmbus::cycled((b_state, state.1), (b.ctx.log(), end.log()), r)
        };
    let d = choose|d: Result<nat>| #[trigger]
        fuzz::pending_drained(
            (state.0, a_state),
            (s.ctx.log(), a.ctx.log()),
            vmbus::RESET_DRAIN_LIMIT as nat,
            d,
        );
    raw::lemma_pending((state.0, a_state), (s.ctx.log(), a.ctx.log()), 64, d);
    if s.chan is Some {
        let c = s.chan->0;
        let closed = choose|closed: Result<()>| #[trigger]
            fuzz::raw_closed(
                (a_state, b_state),
                (a.ctx.log(), b.ctx.log()),
                c.link.channel,
                closed,
            );
        raw::lemma_closes_raw(
            (a_state, b_state),
            c.link.channel,
            (a.ctx.log(), b.ctx.log()),
            closed,
        );
        assert(shuts(a_state, c.link.channel, a.ctx.log(), b.ctx.log()));
    }
    let drained = (a.ctx.log(), a_state);
    let shut = (b.ctx.log(), b_state);
    if b_state.connection is None {
        lemma_reconnects((b_state, state.1), (b.ctx.log(), end.log()), r);
        (drained, shut, shut)
    } else {
        let (mid, mid_log, u) = choose|
            mid: VmbusState<H>,
            mid_log: Seq<HvEvent>,
            u: Result<()>,
        | #[trigger]
            connection::unloaded((b_state, mid), (b.ctx.log(), mid_log), u) && vmbus::reconnected(
                (mid, state.1),
                (mid_log, end.log()),
                r,
            );
        lemma_unloads((b_state, mid), (b.ctx.log(), mid_log), u);
        lemma_reconnects((mid, state.1), (mid_log, end.log()), r);
        (drained, shut, (mid_log, mid))
    }
}

proof fn lemma_resets_bus<C: HypercallTrait, M: RingMem, H: ConnectResultHandler>(
    cell: (Option<VmbusSession<C, M>>, Option<VmbusSession<C, M>>),
    state: (VmbusState<H>, VmbusState<H>),
    freed: Option<u64>,
)
    requires
        vmbus::cell_reset(cell, state, freed),
    ensures
        resets_bus(cell, state, freed),
{
    if cell.0 is Some {
        let s = cell.0->0;
        match cell.1 {
            Some(t) => {
                let r: Result<Seq<OfferChannel>> = Ok(t.offers@);
                let w = lemma_bus_steps(s, state, freed, t.ctx, r);
                assert(bus_steps(s, state, w.0, w.1, w.2, t.ctx.log(), r));
            },
            None => {
                let (end, e) = choose|end: HvCtx<C>, e: Error| #[trigger]
                    vmbus::session_reset(s, (state.0, state.1), freed, end, Err(e));
                let r: Result<Seq<OfferChannel>> = Err(e);
                let w = lemma_bus_steps(s, state, freed, end, r);
                assert(bus_steps(s, state, w.0, w.1, w.2, end.log(), r));
            },
        }
    }
}

/// Law: resetting the session over the bus.
pub proof fn law_bus_reset<C: HypercallTrait, M: RingMem, H: ConnectResultHandler>(
    cell: &mut Option<VmbusSession<C, M>>,
    state: &mut VmbusState<H>,
    freed: Option<u64>,
)
    requires
        call_ensures(vmbus::reset_session::<C, M, H>, (cell, state), freed),
    ensures
        resets_bus((*old(cell), *final(cell)), (*old(state), *final(state)), freed),
{
    lemma_resets_bus((*old(cell), *final(cell)), (*old(state), *final(state)), freed);
}

/// Law: the network device is reset first, while its connection is still up,
/// and then the bus.
pub proof fn law_both_reset<
    C: Rndis<M>,
    M: RingMem,
    H: ConnectResultHandler,
    A: FnOnce(NicBacking) -> NicMemory<M>,
>(
    nic: &mut Option<NetvspSession<C, M>>,
    bus: &mut Option<VmbusSession<C, M>>,
    recycle: A,
    state: &mut VmbusState<H>,
    freed: Option<u64>,
    any: Netvsp<M>,
    i: int,
)
    requires
        call_ensures(
            functions::reset_sessions::<C, M, H, A>,
            (nic, bus, recycle, state),
            freed,
        ),
    ensures
        exists|mid: VmbusState<H>|
            {
                &&& #[trigger] resets_device(
                    (*old(nic), *final(nic)),
                    recycle,
                    (*old(state), mid),
                    any,
                    i,
                )
                &&& resets_bus((*old(bus), *final(bus)), (mid, *final(state)), freed)
            },
{
    let mid = choose|mid: VmbusState<H>| #[trigger]
        netvsp::cell_reset((*old(nic), *final(nic)), recycle, (*old(state), mid))
            && vmbus::cell_reset((*old(bus), *final(bus)), (mid, *final(state)), freed);
    lemma_resets_device((*old(nic), *final(nic)), recycle, (*old(state), mid), any, i);
    lemma_resets_bus((*old(bus), *final(bus)), (mid, *final(state)), freed);
}

/// Law: the guest starts without sessions; a reset keeps the cursor and what
/// hands out memory, and adds the ring region of the bus session's channel to
/// those that are free.
pub proof fn law_guest_sessions<
    C: Rndis<M>,
    M: RingMem,
    H: ConnectResultHandler,
    A: FnOnce(NicBacking) -> NicMemory<M> + Copy,
>(recycle: A, new: GuestSessions<C, M, H, A>, guest: &mut GuestSessions<C, M, H, A>)
    requires
        call_ensures(GuestSessions::<C, M, H, A>::new, (recycle,), new),
        call_ensures(<GuestSessions<C, M, H, A> as Sessions>::reset, (guest,), ()),
    ensures
        new.nic is None,
        new.bus is None,
        new.relid_cursor == 0,
        new.freed@.len() == 0,
        new.recycle == recycle,
        new.state.connection is None,
        new.state.synic is None,
        final(guest).relid_cursor == old(guest).relid_cursor,
        final(guest).recycle == old(guest).recycle,
        final(guest).freed@ == (if old(guest).bus is Some && old(guest).bus->0.chan is Some {
            old(guest).freed@.push(old(guest).bus->0.chan->0.base_gpa)
        } else {
            old(guest).freed@
        }),
{
    let freed = choose|freed: Option<u64>|
        {
            &&& #[trigger] functions::sessions_reset(
                (old(guest).nic, final(guest).nic),
                (old(guest).bus, final(guest).bus),
                old(guest).recycle,
                (old(guest).state, final(guest).state),
                freed,
            )
            &&& final(guest).freed@ == functions::sessions::freed_with(old(guest).freed@, freed)
        };
    let mid = choose|mid: VmbusState<H>| #[trigger]
        netvsp::cell_reset(
            (old(guest).nic, final(guest).nic),
            old(guest).recycle,
            (old(guest).state, mid),
        ) && vmbus::cell_reset(
            (old(guest).bus, final(guest).bus),
            (mid, final(guest).state),
            freed,
        );
    lemma_resets_bus(
        (old(guest).bus, final(guest).bus),
        (mid, final(guest).state),
        freed,
    );
}

} // verus!
