//! What a program's calls do: what is read, posted, written and handed back.
use crate::connection;
use crate::devices::netvsp as device;
use crate::devices::netvsp::RingRegion;
use crate::error::Result;
use crate::error::TmkError;
use crate::functions;
use crate::functions::read_input;
use crate::functions::vmbus;
use crate::functions::vmbus::find_netvsp;
use crate::functions::vmbus::next_relids;
use crate::functions::vmbus::preferred_offer;
use crate::functions::vmbus::VmbusSession;
use crate::functions::Boot;
use crate::functions::Handled;
use crate::functions::HandlerError;
use crate::functions::MemFault;
use crate::functions::SafeMemoryMap;
use crate::fuzz;
use crate::hvsock::ConnectResultHandler;
use crate::hypercalls::HvCtx;
use crate::hypercalls::HvEvent;
use crate::hypercalls::HypercallTrait;
use crate::laws::connecting;
use crate::laws::layout;
use crate::laws::messages;
use crate::laws::raw;
use crate::message::CompletionKey;
use crate::protocol;
use crate::protocol::Guid;
use crate::protocol::OfferChannel;
use crate::ring::RingMem;
use crate::state::VmbusState;
use crate::wire::Wire;
use vstd::prelude::*;

verus! {

/// Law: memory that starts at address 0 gives the bytes at an address, or
/// none where they are not all there, and does not change.
pub proof fn law_memory_read(
    mem: &mut Vec<u8>,
    ptr: usize,
    buf: &mut [u8],
    r: core::result::Result<(), MemFault>,
)
    requires
        call_ensures(<Vec<u8> as SafeMemoryMap>::try_read_mem, (mem, ptr, buf), r),
    ensures
        final(mem)@ == old(mem)@,
        final(buf)@.len() == old(buf)@.len(),
        r is Ok <==> ptr + old(buf)@.len() <= old(mem)@.len(),
        r is Ok ==> forall|i: int|
            0 <= i < old(buf)@.len() ==> #[trigger] final(buf)@[i] == old(mem)@[ptr + i],
{
    if r is Ok {
        assert forall|i: int| 0 <= i < old(buf)@.len() implies #[trigger] final(buf)@[i]
            == old(mem)@[ptr + i] by {
            assert(old(mem)@.subrange(ptr as int, ptr + old(buf)@.len())[i] == old(mem)@[ptr + i]);
        }
    }
}

/// Law: such memory takes bytes where there is room for all of them, and
/// changes nowhere else.
pub proof fn law_memory_written(
    mem: &mut Vec<u8>,
    ptr: usize,
    data: &[u8],
    r: core::result::Result<(), MemFault>,
    i: int,
)
    requires
        call_ensures(<Vec<u8> as SafeMemoryMap>::try_write_mem, (mem, ptr, data), r),
        0 <= i < old(mem)@.len(),
    ensures
        final(mem)@.len() == old(mem)@.len(),
        r is Ok <==> ptr + data@.len() <= old(mem)@.len(),
        r is Err ==> final(mem)@ == old(mem)@,
        r is Ok ==> final(mem)@[i] == (if ptr <= i < ptr + data@.len() {
            data@[i - ptr]
        } else {
            old(mem)@[i]
        }),
{
}

/// Law: a program's input is no longer than its bound; where there is none,
/// nothing is read; otherwise it is what stands in the program's memory.
pub proof fn law_input_taken<G: SafeMemoryMap>(
    mem: &mut G,
    ptr: usize,
    len: usize,
    max: usize,
    r: Handled<Vec<u8>>,
)
    requires
        call_ensures(read_input::<G>, (mem, ptr, len, max), r),
    ensures
        len > max || len == 0 ==> *final(mem) == *old(mem),
        len > max ==> r is Err && r->Err_0 == (HandlerError::TooLong { len, max }),
        len == 0 ==> r is Ok && r->Ok_0@.len() == 0,
        0 < len <= max ==> match r {
            Ok(bytes) => bytes@.len() == len && old(mem).mem_read(
                ptr,
                len as nat,
                Some(bytes@),
                *final(mem),
            ),
            Err(e) => e == HandlerError::ReadFault && old(mem).mem_read(
                ptr,
                len as nat,
                None,
                *final(mem),
            ),
        },
{
}

/// The interface of the network device,
/// `f8615163-df3e-46c5-913f-f2d2f965ed0e`.
pub open spec fn is_nic(g: Guid) -> bool {
    &&& g.data1 == 0xf861_5163
    &&& g.data2 == 0xdf3e
    &&& g.data3 == 0x46c5
    &&& g.data4@ == seq![0x91u8, 0x3f, 0xf2, 0xd2, 0xf9, 0x65, 0xed, 0x0e]
}

/// `r` is the first offer of a network device.
pub open spec fn first_nic(offers: Seq<OfferChannel>, r: Option<OfferChannel>) -> bool {
    match r {
        None => forall|i: int|
            0 <= i < offers.len() ==> !is_nic((#[trigger] offers[i]).interface_id),
        Some(offer) => exists|k: int|
            {
                &&& 0 <= k < offers.len()
                &&& #[trigger] offers[k] == offer
                &&& is_nic(offer.interface_id)
                &&& forall|i: int| 0 <= i < k ==> !is_nic((#[trigger] offers[i]).interface_id)
            },
    }
}

proof fn lemma_first_nic(offers: Seq<OfferChannel>)
    ensures
        first_nic(offers, vmbus::first_netvsp(offers)),
    decreases offers.len(),
{
    if offers.len() > 0 {
        if is_nic(offers[0].interface_id) {
            assert(device::is_interface(offers[0].interface_id));
        } else {
            assert(!device::is_interface(offers[0].interface_id));
            let rest = offers.drop_first();
            lemma_first_nic(rest);
            match vmbus::first_netvsp(rest) {
                None => {
                    assert forall|i: int| 0 <= i < offers.len() implies !is_nic(
                        (#[trigger] offers[i]).interface_id,
                    ) by {
                        if i > 0 {
                            assert(rest[i - 1] == offers[i]);
                        }
                    }
                },
                Some(offer) => {
                    let k = choose|k: int|
                        {
                            &&& 0 <= k < rest.len()
                            &&& #[trigger] rest[k] == offer
                            &&& is_nic(offer.interface_id)
                            &&& forall|i: int|
                                0 <= i < k ==> !is_nic((#[trigger] rest[i]).interface_id)
                        };
                    assert(offers[k + 1] == offer);
                    assert forall|i: int| 0 <= i < k + 1 implies !is_nic(
                        (#[trigger] offers[i]).interface_id,
                    ) by {
                        if i > 0 {
                            assert(rest[i - 1] == offers[i]);
                        }
                    }
                },
            }
        }
    }
}

/// Law: the network device that is found is the first one on offer; for ring
/// traffic, where there is none, the first offer of any kind is taken.
pub proof fn law_offer_chosen(
    offers: &[OfferChannel],
    found: Option<OfferChannel>,
    chosen: Option<OfferChannel>,
)
    requires
        call_ensures(find_netvsp, (offers,), found),
        call_ensures(preferred_offer, (offers,), chosen),
    ensures
        first_nic(offers@, found),
        chosen is None <==> offers@.len() == 0,
        found is Some ==> chosen == found,
        found is None && offers@.len() > 0 ==> chosen == Some(offers@[0]),
{
    lemma_first_nic(offers@);
    if offers@.len() == 0 {
        assert(found is None);
    }
}

/// Law: ten ids of four bytes each are handed out, those on the list from the
/// cursor on, round and round; the cursor moves on by ten.
pub proof fn law_relids_next(ids: &[u32], cursor: &mut usize, r: Vec<u8>, i: int)
    requires
        ids@.len() > 0,
        *old(cursor) <= usize::MAX - 10,
        call_ensures(next_relids, (ids, cursor), r),
    ensures
        *final(cursor) == *old(cursor) + 10,
        relids_from(r@, ids@, *old(cursor) as int, i),
{
    lemma_relids(ids@, *old(cursor), 10, i);
    lemma_step(*old(cursor), 10);
}

/// The bytes are ten ids of the list from index `at` on, the `i`-th of them
/// for one.
pub open spec fn relids_from(b: Seq<u8>, ids: Seq<u32>, at: int, i: int) -> bool {
    &&& b.len() == 40
    &&& 0 <= i < 10 ==> layout::word32(b, 4 * i) == ids[(at + i) % (ids.len() as int)]
}

proof fn lemma_step(cursor: usize, n: nat)
    requires
        cursor + n <= usize::MAX,
    ensures
        vmbus::stepped(cursor, n) == cursor + n,
{
    vstd::arithmetic::div_mod::lemma_small_mod((cursor + n) as nat, (usize::MAX + 1) as nat);
}

proof fn lemma_relids(ids: Seq<u32>, cursor: usize, n: nat, i: int)
    requires
        ids.len() > 0,
        cursor + n <= usize::MAX,
    ensures
        vmbus::relid_bytes(ids, cursor, n).len() == 4 * n,
        0 <= i < n ==> layout::word32(vmbus::relid_bytes(ids, cursor, n), 4 * i) == ids[(cursor + i) % (
        ids.len() as int)],
    decreases n,
{
    if n > 0 {
        let m = (n - 1) as nat;
        lemma_relids(ids, cursor, m, i);
        lemma_step(cursor, m);
        let a = vmbus::relid_bytes(ids, cursor, m);
        let b = vmbus::relid_bytes(ids, cursor, n);
        let id = ids[(cursor + m) % (ids.len() as int)];
        id.lemma_wire_len();
        assert(b == a + id.wire());
        if 0 <= i < m {
            assert(b[4 * i] == a[4 * i] && b[4 * i + 1] == a[4 * i + 1] && b[4 * i + 2] == a[4 * i
                + 2] && b[4 * i + 3] == a[4 * i + 3]);
        }
        if i == m {
            assert(b.subrange(4 * i, 4 * i + 4) =~= id.wire());
            layout::law_word32(id, b, 4 * i);
        }
    }
}

/// Law: filling in ids needs an address and an offer; it writes ten of the
/// ids on offer there.
pub proof fn law_relids_filled<
    C: HypercallTrait,
    M: RingMem,
    H: ConnectResultHandler,
    G: SafeMemoryMap,
    F: FnOnce() -> core::result::Result<Boot<C>, TmkError>,
>(
    cell: &mut Option<VmbusSession<C, M>>,
    boot: F,
    state: &mut VmbusState<H>,
    mem: &mut G,
    cursor: &mut usize,
    relids_ptr: usize,
    r: Handled<()>,
    i: int,
)
    requires
        call_ensures(
            vmbus::vmbus_fill_relids::<C, M, H, G, F>,
            (cell, boot, state, mem, cursor, relids_ptr),
            r,
        ),
    ensures
        relids_ptr == 0 ==> {
            &&& r == Err::<(), HandlerError>(HandlerError::NullPointer)
            &&& *final(cell) == *old(cell)
            &&& *final(state) == *old(state)
            &&& *final(mem) == *old(mem)
            &&& *final(cursor) == *old(cursor)
        },
        relids_ptr != 0 && *old(cell) is Some ==> {
            let ids = old(cell)->0.offers@;
            &&& *final(cell) == *old(cell)
            &&& *final(state) == *old(state)
            &&& ids.len() == 0 ==> {
                &&& r == Err::<(), HandlerError>(HandlerError::NoOffers)
                &&& *final(mem) == *old(mem)
                &&& *final(cursor) == *old(cursor)
            }
            &&& ids.len() > 0 && *old(cursor) <= usize::MAX - 10 ==> {
                &&& *final(cursor) == *old(cursor) + 10
                &&& r is Err ==> r == Err::<(), HandlerError>(HandlerError::WriteFault)
                &&& exists|b: Seq<u8>|
                    {
                        &&& #[trigger] old(mem).mem_written(relids_ptr, b, r is Ok, *final(mem))
                        &&& b.len() == 40
                        &&& 0 <= i < 10 ==> layout::word32(b, 4 * i) == ids[(*old(cursor) + i) % (
                        ids.len() as int)].channel_id.0
                    }
            }
        },
{
    if relids_ptr != 0 && *old(cell) is Some {
        let offers = old(cell)->0.offers@;
        if offers.len() > 0 && *old(cursor) <= usize::MAX - 10 {
            let ids = offers.map_values(|o: OfferChannel| o.channel_id.0);
            let b = vmbus::relid_bytes(ids, *old(cursor), 10);
            lemma_relids(ids, *old(cursor), 10, i);
            lemma_step(*old(cursor), 10);
            assert(old(mem).mem_written(relids_ptr, b, r is Ok, *final(mem)));
            if 0 <= i < 10 {
                let k = (*old(cursor) + i) % (offers.len() as int);
                assert(0 <= k < offers.len());
                assert(ids[k] == offers[k].channel_id.0);
            }
        }
    }
}

/// A message of a program was posted to `to` and came to `r`.
pub open spec fn program_posts<G: SafeMemoryMap>(
    mem: (G, G),
    pkt: usize,
    pkt_len: usize,
    to: u32,
    log: (Seq<HvEvent>, Seq<HvEvent>),
    r: Handled<()>,
) -> bool {
    exists|msg: Seq<u8>|
        {
            &&& msg.len() == pkt_len
            &&& pkt_len == 0 ==> mem.1 == mem.0
            &&& pkt_len > 0 ==> mem.0.mem_read(pkt, pkt_len as nat, Some(msg), mem.1)
            &&& log.1.len() == log.0.len() + 1
            &&& log.1.drop_last() == log.0
            &&& log.1.last() is Posted
            &&& log.1.last()->Posted_connection_id == to
            &&& #[trigger] raw::cut(log.1.last()->Posted_payload, msg)
            &&& r == match log.1.last()->Posted_result {
                Ok(_) => Ok(()),
                Err(e) => Err(HandlerError::Bus(e)),
            }
        }
}

/// Law: a message of up to 4096 bytes is read from the program's memory and
/// posted; a longer one is refused.
pub proof fn law_message_posted<
    C: HypercallTrait,
    M: RingMem,
    H: ConnectResultHandler,
    G: SafeMemoryMap,
    F: FnOnce() -> core::result::Result<Boot<C>, TmkError>,
>(
    cell: &mut Option<VmbusSession<C, M>>,
    boot: F,
    state: &mut VmbusState<H>,
    mem: &mut G,
    pkt: usize,
    pkt_len: usize,
    conn_id: u64,
    r: Handled<()>,
)
    requires
        call_ensures(
            vmbus::vmbus_msg::<C, M, H, G, F>,
            (cell, boot, state, mem, pkt, pkt_len, conn_id),
            r,
        ),
    ensures
        pkt_len > 4096 ==> {
            &&& r == Err::<(), HandlerError>(HandlerError::TooLong { len: pkt_len, max: 4096 })
            &&& *final(cell) == *old(cell)
            &&& *final(state) == *old(state)
            &&& *final(mem) == *old(mem)
        },
        pkt_len <= 4096 && *old(cell) is Some ==> {
            &&& *final(cell) is Some
            &&& final(cell)->0.offers == old(cell)->0.offers
            &&& final(cell)->0.chan == old(cell)->0.chan
            &&& *final(state) == *old(state)
            &&& {
                ||| {
                    &&& r == Err::<(), HandlerError>(HandlerError::ReadFault)
                    &&& pkt_len > 0
                    &&& old(mem).mem_read(pkt, pkt_len as nat, None, *final(mem))
                    &&& *final(cell) == *old(cell)
                }
                ||| exists|to: u32| #[trigger]
                    raw::addresses(old(state).connection, conn_id, to) && program_posts(
                        (*old(mem), *final(mem)),
                        pkt,
                        pkt_len,
                        to,
                        (old(cell)->0.ctx.log(), final(cell)->0.ctx.log()),
                        r,
                    )
            }
        },
{
    let (mid, got) = choose|mid: Option<VmbusSession<C, M>>, got: Handled<Seq<u8>>| #[trigger]
        vmbus::staged(
            boot,
            (*old(cell), mid),
            (*old(state), *final(state)),
            (*old(mem), *final(mem)),
            pkt,
            pkt_len,
            got,
        ) && match got {
            Err(e) => r == Err::<(), HandlerError>(e) && *final(cell) == mid,
            Ok(msg) => {
                &&& mid is Some
                &&& *final(cell) is Some
                &&& vmbus::msg_posted(
                    (mid->0, final(cell)->0),
                    fuzz::resolved_id(old(state).connection, conn_id),
                    msg,
                    r,
                )
            },
        };
    if pkt_len <= 4096 && *old(cell) is Some && got is Ok {
        let msg = got->Ok_0;
        raw::lemma_addresses(old(state).connection, conn_id);
        assert(raw::cut(final(cell)->0.ctx.log().last()->Posted_payload, msg));
    }
}

/// The answer `w` was handed to a program and came to `r`: as much of it as
/// there is room for is written, where the program has room; an answer that
/// did not come is none to write.
pub open spec fn hands_back<G: SafeMemoryMap>(
    mem: (G, G),
    w: Result<Option<Seq<u8>>>,
    out: usize,
    room: usize,
    r: Handled<()>,
) -> bool {
    match w {
        Err(e) => r == Err::<(), HandlerError>(HandlerError::Bus(e)) && mem.1 == mem.0,
        Ok(None) => r == Ok::<(), HandlerError>(()) && mem.1 == mem.0,
        Ok(Some(b)) => if out == 0 || room == 0 {
            r == Ok::<(), HandlerError>(()) && mem.1 == mem.0
        } else {
            &&& mem.0.mem_written(
                out,
                b.take(
                    if b.len() <= room {
                        b.len() as int
                    } else {
                        room as int
                    },
                ),
                r is Ok,
                mem.1,
            )
            &&& r is Err ==> r == Err::<(), HandlerError>(HandlerError::WriteFault)
        },
    }
}

/// Law: a message that an answer is wanted for is posted the same way; the
/// answer is looked for up to a million times and handed back.
pub proof fn law_message_answered<
    C: HypercallTrait,
    M: RingMem,
    H: ConnectResultHandler,
    G: SafeMemoryMap,
    F: FnOnce() -> core::result::Result<Boot<C>, TmkError>,
>(
    cell: &mut Option<VmbusSession<C, M>>,
    boot: F,
    state: &mut VmbusState<H>,
    mem: &mut G,
    pkt: usize,
    pkt_len: usize,
    pkt_out: usize,
    pkt_out_len: usize,
    conn_id: u64,
    r: Handled<()>,
)
    requires
        call_ensures(
            vmbus::vmbus_msg_comp::<C, M, H, G, F>,
            (cell, boot, state, mem, pkt, pkt_len, pkt_out, pkt_out_len, conn_id),
            r,
        ),
    ensures
        pkt_len > 4096 ==> {
            &&& r == Err::<(), HandlerError>(HandlerError::TooLong { len: pkt_len, max: 4096 })
            &&& *final(cell) == *old(cell)
            &&& *final(state) == *old(state)
            &&& *final(mem) == *old(mem)
        },
        pkt_len <= 4096 && *old(cell) is Some ==> {
            &&& *final(cell) is Some
            &&& final(cell)->0.offers == old(cell)->0.offers
            &&& final(cell)->0.chan == old(cell)->0.chan
            &&& {
                ||| {
                    &&& r == Err::<(), HandlerError>(HandlerError::ReadFault)
                    &&& pkt_len > 0
                    &&& old(mem).mem_read(pkt, pkt_len as nat, None, *final(mem))
                    &&& *final(cell) == *old(cell)
                }
                ||| exists|to: u32, msg: Seq<u8>, mid: G, w: Result<Option<Seq<u8>>>|
                    {
                        &&& raw::addresses(old(state).connection, conn_id, to)
                        &&& msg.len() == pkt_len
                        &&& pkt_len == 0 ==> mid == *old(mem)
                        &&& pkt_len > 0 ==> old(mem).mem_read(pkt, pkt_len as nat, Some(msg), mid)
                        &&& #[trigger] raw::posts_and_looks(
                            *old(state),
                            to,
                            msg,
                            1_000_000,
                            (old(cell)->0.ctx.log(), final(cell)->0.ctx.log()),
                            w,
                        )
                        &&& #[trigger] hands_back(
                            (mid, *final(mem)),
                            w,
                            pkt_out,
                            pkt_out_len,
                            r,
                        )
                    }
            }
        },
{
    let (mid, mid_state, mid_mem, got) = choose|
        mid: Option<VmbusSession<C, M>>,
        mid_state: VmbusState<H>,
        mid_mem: G,
        got: Handled<Seq<u8>>,
    | #[trigger]
        vmbus::staged(
            boot,
            (*old(cell), mid),
            (*old(state), mid_state),
            (*old(mem), mid_mem),
            pkt,
            pkt_len,
            got,
        ) && match got {
            Err(e) => {
                &&& r == Err::<(), HandlerError>(e)
                &&& *final(cell) == mid
                &&& *final(state) == mid_state
                &&& *final(mem) == mid_mem
            },
            Ok(msg) => {
                &&& mid is Some
                &&& *final(cell) is Some
                &&& vmbus::msg_answered(
                    (mid->0, final(cell)->0),
                    (mid_state, *final(state)),
                    (mid_mem, *final(mem)),
                    fuzz::resolved_id(old(state).connection, conn_id),
                    msg,
                    (pkt_out, pkt_out_len),
                    r,
                )
            },
        };
    if pkt_len <= 4096 && *old(cell) is Some && got is Ok {
        let msg = got->Ok_0;
        let to = fuzz::resolved_id(old(state).connection, conn_id);
        raw::lemma_addresses(old(state).connection, conn_id);
        let log = (old(cell)->0.ctx.log(), final(cell)->0.ctx.log());
        let w = choose|w: Result<Option<Seq<u8>>>| #[trigger]
            fuzz::waited(
                (mid_state, *final(state)),
                log,
                to,
                msg,
                fuzz::DEFAULT_WAIT_POLLS as nat,
                w,
            ) && match w {
                Err(e) => {
                    &&& r == Err::<(), HandlerError>(HandlerError::Bus(e))
                    &&& *final(mem) == mid_mem
                },
                Ok(resp) => vmbus::reply_written(
                    (mid_mem, *final(mem)),
                    resp,
                    pkt_out,
                    pkt_out_len,
                    r,
                ),
            };
        raw::lemma_posts_and_looks((mid_state, *final(state)), log, to, msg, 1_000_000, w);
        assert(hands_back((mid_mem, *final(mem)), w, pkt_out, pkt_out_len, r));
        assert(raw::posts_and_looks(*old(state), to, msg, 1_000_000, log, w));
    }
}

/// The descriptor that a program gives at `at`: none where it gives no
/// address; otherwise the 16 bytes there, of which the first two are replaced
/// by the type.
pub open spec fn takes_descriptor<G: SafeMemoryMap>(
    mem: (G, G),
    at: usize,
    ty: int,
    given: Option<Seq<u8>>,
) -> bool {
    if at == 0 {
        given is None && mem.1 == mem.0
    } else {
        &&& given is Some
        &&& given->0.len() == 16
        &&& layout::word16(given->0, 0) == ty
        &&& exists|b: Seq<u8>|
            {
                &&& #[trigger] mem.0.mem_read(at, 16, Some(b), mem.1)
                &&& b.len() == 16
                &&& forall|i: int| 2 <= i < 16 ==> #[trigger] given->0[i] == b[i]
            }
    }
}

proof fn lemma_descriptor<G: SafeMemoryMap>(
    mem: (G, G),
    at: usize,
    ty: u16,
    given: Option<Seq<u8>>,
)
    requires
        vmbus::descriptor_read(mem, at, ty, Ok(given)),
    ensures
        takes_descriptor(mem, at, ty as int, given),
{
    if at != 0 {
        let b = choose|b: Seq<u8>| #[trigger]
            mem.0.mem_read(at, 16, Some(b), mem.1) && b.len() == 16 && given == Some(
                vmbus::typed_descriptor(b, ty),
            );
        let d = given->0;
        ty.lemma_wire_len();
        assert(d.subrange(0, 2) =~= ty.wire());
        layout::law_word16(ty, d, 0);
        assert(mem.0.mem_read(at, 16, Some(b), mem.1));
        assert forall|i: int| 2 <= i < 16 implies #[trigger] d[i] == b[i] by {
            assert(b.skip(2)[i - 2] == b[i]);
        }
    }
}

/// Law: a packet of up to 16384 bytes goes over the session's channel, with
/// the lower half of the type that the program asks for, behind the
/// descriptor that it gives or one that the ring makes up; a longer one is
/// refused.
pub proof fn law_packet_carried<
    C: HypercallTrait,
    M: RingMem,
    H: ConnectResultHandler,
    G: SafeMemoryMap,
    F: FnOnce() -> core::result::Result<Boot<C>, TmkError>,
    A: FnOnce() -> Option<RingRegion<M>>,
>(
    cell: &mut Option<VmbusSession<C, M>>,
    boot: F,
    rings: A,
    state: &mut VmbusState<H>,
    mem: &mut G,
    pkt: usize,
    pkt_len: usize,
    pkt_desc: usize,
    pkt_type: u64,
    r: Handled<()>,
)
    requires
        vmbus::cell_wf(*old(cell)),
        call_ensures(
            vmbus::vmbus_packet::<C, M, H, G, F, A>,
            (cell, boot, rings, state, mem, pkt, pkt_len, pkt_desc, pkt_type),
            r,
        ),
    ensures
        pkt_len > 16384 ==> {
            &&& r == Err::<(), HandlerError>(HandlerError::TooLong { len: pkt_len, max: 16384 })
            &&& *final(cell) == *old(cell)
            &&& *final(state) == *old(state)
            &&& *final(mem) == *old(mem)
        },
        pkt_len <= 16384 && *old(cell) is Some && old(cell)->0.chan is Some ==> {
            &&& *final(state) == *old(state)
            &&& {
                ||| {
                    &&& r == Err::<(), HandlerError>(HandlerError::ReadFault)
                    &&& *final(cell) == *old(cell)
                }
                ||| exists|mid: G, payload: Seq<u8>, given: Option<Seq<u8>>, sent: Result<()>|
                    {
                        &&& payload.len() == pkt_len
                        &&& pkt_len == 0 ==> mid == *old(mem)
                        &&& pkt_len > 0 ==> old(mem).mem_read(
                            pkt,
                            pkt_len as nat,
                            Some(payload),
                            mid,
                        )
                        &&& #[trigger] takes_descriptor(
                            (mid, *final(mem)),
                            pkt_desc,
                            (pkt_type % 0x1_0000) as int,
                            given,
                        )
                        &&& *final(cell) is Some
                        &&& final(cell)->0.chan is Some
                        &&& #[trigger] raw::sends(
                            old(cell)->0.chan->0,
                            given,
                            (pkt_type % 0x1_0000) as int,
                            payload,
                            0,
                            (old(cell)->0.ctx.log(), final(cell)->0.ctx.log()),
                            final(cell)->0.chan->0,
                            sent,
                        )
                        &&& r == match sent {
                            Ok(_) => Ok(()),
                            Err(e) => Err(HandlerError::Bus(e)),
                        }
                    }
            }
        },
{
    let (mid, read) = choose|mid: G, read: Handled<Seq<u8>>| #[trigger]
        functions::input_read(
            (*old(mem), mid),
            pkt,
            pkt_len,
            vmbus::MAX_FUZZ_PKT_LEN,
            read,
        ) && match read {
            Err(e) => {
                &&& r == Err::<(), HandlerError>(e)
                &&& *final(mem) == mid
                &&& *final(cell) == *old(cell)
                &&& *final(state) == *old(state)
            },
            Ok(payload) => exists|d: Handled<Option<Seq<u8>>>| #[trigger]
                vmbus::descriptor_read(
                    (mid, *final(mem)),
                    pkt_desc,
                    (pkt_type % 65536) as u16,
                    d,
                ) && match d {
                    Err(e) => {
                        &&& r == Err::<(), HandlerError>(e)
                        &&& *final(cell) == *old(cell)
                        &&& *final(state) == *old(state)
                    },
                    Ok(descriptor) => vmbus::packet_carried(
                        boot,
                        rings,
                        (*old(cell), *final(cell)),
                        (*old(state), *final(state)),
                        descriptor,
                        (pkt_type % 65536) as u16,
                        payload,
                        r,
                    ),
                },
        };
    if pkt_len <= 16384 && *old(cell) is Some && old(cell)->0.chan is Some && read is Ok {
        let payload = read->Ok_0;
        let ty = (pkt_type % 65536) as u16;
        let d = choose|d: Handled<Option<Seq<u8>>>| #[trigger]
            vmbus::descriptor_read((mid, *final(mem)), pkt_desc, ty, d) && match d {
                Err(e) => {
                    &&& r == Err::<(), HandlerError>(e)
                    &&& *final(cell) == *old(cell)
                    &&& *final(state) == *old(state)
                },
                Ok(descriptor) => vmbus::packet_carried(
                    boot,
                    rings,
                    (*old(cell), *final(cell)),
                    (*old(state), *final(state)),
                    descriptor,
                    ty,
                    payload,
                    r,
                ),
            };
        if d is Ok {
            let given = d->Ok_0;
            lemma_descriptor((mid, *final(mem)), pkt_desc, ty, given);
            let a = old(cell)->0;
            let b = final(cell)->0;
            let sent = choose|sent: Result<()>| #[trigger]
                a.chan->0.sent(
                    vmbus::program_packet(a.chan->0, given, ty, payload),
                    (a.ctx.log(), b.ctx.log()),
                    b.chan->0,
                    sent,
                ) && r == vmbus::bus(sent);
            raw::lemma_sends(
                a.chan->0,
                given,
                ty,
                payload,
                0,
                (a.ctx.log(), b.ctx.log()),
                b.chan->0,
                sent,
            );
            assert(takes_descriptor(
                (mid, *final(mem)),
                pkt_desc,
                (pkt_type % 0x1_0000) as int,
                given,
            ));
            assert(raw::sends(
                a.chan->0,
                given,
                (pkt_type % 0x1_0000) as int,
                payload,
                0,
                (a.ctx.log(), b.ctx.log()),
                b.chan->0,
                sent,
            ));
        }
    }
}

/// Opening the session's channel went like this: over the first network
/// device on offer, or else the first offer.
pub open spec fn opens_preferred<
    C: HypercallTrait,
    M: RingMem,
    H: ConnectResultHandler,
    A: FnOnce() -> Option<RingRegion<M>>,
>(
    rings: A,
    session: (VmbusSession<C, M>, VmbusSession<C, M>),
    state: (VmbusState<H>, VmbusState<H>),
    r: Handled<()>,
    i: int,
) -> bool {
    let offers = session.0.offers@;
    &&& session.1.offers == session.0.offers
    &&& offers.len() == 0 ==> {
        &&& r == Err::<(), HandlerError>(HandlerError::NoOffers)
        &&& session.1 == session.0
        &&& state.1 == state.0
    }
    &&& offers.len() > 0 ==> {
        &&& r is Err ==> session.1.chan == session.0.chan && r->Err_0 is Open
        &&& r is Ok ==> exists|offer: OfferChannel, region: Option<RingRegion<M>>|
            {
                &&& first_nic(offers, Some(offer)) || (first_nic(offers, None) && offer
                    == offers[0])
                &&& call_ensures(rings, (), region)
                &&& session.1.chan is Some
                &&& #[trigger] raw::opens_raw(
                    state,
                    (session.0.ctx.log(), session.1.ctx.log()),
                    offer,
                    region,
                    Ok(session.1.chan->0),
                    i,
                )
            }
    }
}

proof fn lemma_opens_preferred<
    C: HypercallTrait,
    M: RingMem,
    H: ConnectResultHandler,
    A: FnOnce() -> Option<RingRegion<M>>,
>(
    rings: A,
    session: (VmbusSession<C, M>, VmbusSession<C, M>),
    state: (VmbusState<H>, VmbusState<H>),
    r: Handled<()>,
    i: int,
)
    requires
        vmbus::channel_opened(rings, session, state, r),
    ensures
        opens_preferred(rings, session, state, r, i),
{
    let offers = session.0.offers@;
    lemma_first_nic(offers);
    if offers.len() > 0 && r is Ok {
        let offer = vmbus::preferred(offers)->0;
        let region = choose|region: Option<RingRegion<M>>| #[trigger]
            call_ensures(rings, (), region) && session.1.chan is Some && fuzz::raw_opened(
                state,
                (session.0.ctx.log(), session.1.ctx.log()),
                offer,
                region,
                Ok(session.1.chan->0),
            );
        raw::lemma_raw_opened(
            state,
            (session.0.ctx.log(), session.1.ctx.log()),
            offer,
            region,
            Ok(session.1.chan->0),
            i,
        );
    }
}

/// Law: a channel that is there is kept; otherwise one is opened.
pub proof fn law_channel_there<
    C: HypercallTrait,
    M: RingMem,
    H: ConnectResultHandler,
    A: FnOnce() -> Option<RingRegion<M>>,
>(
    session: &mut VmbusSession<C, M>,
    rings: A,
    state: &mut VmbusState<H>,
    r: Handled<()>,
    i: int,
)
    requires
        call_ensures(vmbus::with_channel::<C, M, H, A>, (session, rings, state), r),
    ensures
        r is Ok ==> final(session).chan is Some,
        old(session).chan is Some ==> {
            &&& r is Ok
            &&& *final(session) == *old(session)
            &&& *final(state) == *old(state)
        },
        old(session).chan is None ==> opens_preferred(
            rings,
            (*old(session), *final(session)),
            (*old(state), *final(state)),
            r,
            i,
        ),
{
    if old(session).chan is None {
        lemma_opens_preferred(
            rings,
            (*old(session), *final(session)),
            (*old(state), *final(state)),
            r,
            i,
        );
    }
}

/// Law: reopening closes the session's channel first, whatever comes of it,
/// says which ring region is free again, and opens one anew.
pub proof fn law_channel_reopened<
    C: HypercallTrait,
    M: RingMem,
    H: ConnectResultHandler,
    F: FnOnce() -> core::result::Result<Boot<C>, TmkError>,
    A: FnOnce() -> Option<RingRegion<M>>,
>(
    cell: &mut Option<VmbusSession<C, M>>,
    boot: F,
    rings: A,
    state: &mut VmbusState<H>,
    r: (Option<u64>, Handled<()>),
    i: int,
)
    requires
        *old(cell) is Some,
        call_ensures(
            vmbus::vmbus_reopen_channel::<C, M, H, F, A>,
            (cell, boot, rings, state),
            r,
        ),
    ensures
        *final(cell) is Some,
        old(cell)->0.chan is None ==> r.0 is None && opens_preferred(
            rings,
            (old(cell)->0, final(cell)->0),
            (*old(state), *final(state)),
            r.1,
            i,
        ),
        old(cell)->0.chan matches Some(c) ==> {
            &&& r.0 == Some(c.base_gpa)
            &&& exists|mid: VmbusSession<C, M>, mid_state: VmbusState<H>, closed: Result<()>|
                {
                    &&& mid.chan is None
                    &&& mid.offers == old(cell)->0.offers
                    &&& #[trigger] raw::closes_raw(
                        *old(state),
                        c.link.channel,
                        (old(cell)->0.ctx.log(), mid.ctx.log()),
                        closed,
                    )
                    &&& #[trigger] opens_preferred(
                        rings,
                        (mid, final(cell)->0),
                        (mid_state, *final(state)),
                        r.1,
                        i,
                    )
                }
        },
{
    let a = old(cell)->0;
    let b = final(cell)->0;
    let (mid, mid_state) = choose|mid: VmbusSession<C, M>, mid_state: VmbusState<H>| #[trigger]
        vmbus::channel_closed((a, mid), (*old(state), mid_state), r.0) && vmbus::channel_opened(
            rings,
            (mid, b),
            (mid_state, *final(state)),
            r.1,
        );
    lemma_opens_preferred(rings, (mid, b), (mid_state, *final(state)), r.1, i);
    if a.chan is Some {
        let c = a.chan->0;
        let closed = choose|closed: Result<()>| #[trigger]
            fuzz::raw_closed(
                (*old(state), mid_state),
                (a.ctx.log(), mid.ctx.log()),
                c.link.channel,
                closed,
            );
        raw::lemma_closes_raw(
            (*old(state), mid_state),
            c.link.channel,
            (a.ctx.log(), mid.ctx.log()),
            closed,
        );
    } else {
        assert(mid.offers == a.offers && mid.ctx == a.ctx && mid.chan is None);
        assert(mid == a);
    }
}

/// Law: a session that is up is kept, and nothing asked of the platform;
/// where the platform has no context for a new one, that is what is reported.
pub proof fn law_session_kept<
    C: HypercallTrait,
    M: RingMem,
    H: ConnectResultHandler,
    F: FnOnce() -> core::result::Result<Boot<C>, TmkError>,
>(
    cell: &mut Option<VmbusSession<C, M>>,
    boot: F,
    state: &mut VmbusState<H>,
    r: Handled<()>,
)
    requires
        call_ensures(vmbus::with_session::<C, M, H, F>, (cell, boot, state), r),
    ensures
        *old(cell) is Some ==> r is Ok && *final(cell) == *old(cell) && *final(state) == *old(state),
        r is Ok <==> *final(cell) is Some,
        *old(cell) is None ==> exists|b: core::result::Result<Boot<C>, TmkError>|
            {
                &&& #[trigger] call_ensures(boot, (), b)
                &&& b matches Err(e) ==> r == Err::<(), HandlerError>(HandlerError::Context(e))
                    && *final(state) == *old(state)
                &&& b is Ok && r is Err ==> r->Err_0 is Init || r->Err_0 is Offers
                &&& r is Ok ==> b is Ok && final(cell)->0.chan is None
            },
{
}

/// Law: a new session initialises the bus over the platform's pages and then
/// asks for the offers; each step's failure is reported as its own.
pub proof fn law_session_brought_up<
    C: HypercallTrait,
    M: RingMem,
    H: ConnectResultHandler,
>(boot: Boot<C>, state: &mut VmbusState<H>, r: Handled<VmbusSession<C, M>>)
    requires
        call_ensures(vmbus::bring_up_session::<C, M, H>, (boot, state), r),
    ensures
        exists|mid: VmbusState<H>, log: Seq<HvEvent>, up: Result<()>|
            {
                &&& #[trigger] crate::inited(
                    (*old(state), mid),
                    (Seq::<HvEvent>::empty(), log),
                    boot.pages,
                    up,
                )
                &&& up matches Err(e) ==> r == Err::<VmbusSession<C, M>, HandlerError>(
                    HandlerError::Init(e),
                )
                &&& up is Ok ==> match r {
                    Ok(s) => {
                        &&& s.chan is None
                        &&& connection::offers_asked(
                            (mid, *final(state)),
                            (log, s.ctx.log()),
                            Ok(s.offers@),
                        )
                        &&& mid.connection is Some && mid.synic is Some
                        &&& connecting::exchanged(
                            mid.connection->0.post_message_connection_id,
                            3,
                            CompletionKey::AllOffersDelivered,
                            (log, s.ctx.log()),
                            Ok(()),
                        )
                    },
                    Err(e) => e is Offers,
                }
            },
{
    messages::lemma_message(
        protocol::RequestOffers,
        protocol::message_bytes(protocol::RequestOffers),
    );
    let (mid, ctx, up) = choose|mid: VmbusState<H>, ctx: HvCtx<C>, up: Result<()>| #[trigger]
        crate::inited(
            (*old(state), mid),
            (Seq::<HvEvent>::empty(), ctx.log()),
            boot.pages,
            up,
        ) && ctx.since(boot.ctx) && match up {
            Err(e) => *final(state) == mid && r == Err::<VmbusSession<C, M>, HandlerError>(
                HandlerError::Init(e),
            ),
            Ok(_) => vmbus::enumerated((mid, *final(state)), ctx, r),
        };
    let log = ctx.log();
    assert(crate::inited((*old(state), mid), (Seq::<HvEvent>::empty(), log), boot.pages, up));
    if up is Ok && r is Ok {
        let s = r->Ok_0;
        let n = log.len() as int;
        let ev = s.ctx.log().skip(n);
        assert(ev[0] == s.ctx.log()[n]);
        if ev.len() > 1 {
            assert(ev[1] == s.ctx.log()[n + 1]);
        }
    }
}

} // verus!
