//! Raw messages and raw channels: what is posted, what is read, what is
//! written.
use crate::channel::Channel;
use crate::channel::ChannelState;
use crate::connection::ConnectionState;
use crate::devices::netvsp;
use crate::devices::netvsp::RingRegion;
use crate::error::Error;
use crate::error::Result;
use crate::fuzz;
use crate::fuzz::drain_pending;
use crate::fuzz::poll_capture;
use crate::fuzz::post_raw_message;
use crate::fuzz::post_raw_message_wait;
use crate::fuzz::relids;
use crate::fuzz::resolve_connection_id;
use crate::fuzz::RawChannel;
use crate::gpadl;
use crate::gpadl::GpadlHandle;
use crate::hvsock::ConnectResultHandler;
use crate::hypercalls::HvCtx;
use crate::hypercalls::HvEvent;
use crate::hypercalls::HypercallTrait;
use crate::interrupt;
use crate::laws::channels;
use crate::laws::layout;
use crate::laws::nics;
use crate::laws::regions;
use crate::laws::rings;
use crate::laws::slots;
use crate::message::SlotState;
use crate::packet;
use crate::packet::InPacket;
use crate::packet::OutPacket;
use crate::protocol::GpadlId;
use crate::protocol::OfferChannel;
use crate::protocol::PacketFlags;
use crate::protocol::PacketType;
use crate::ring::RingMem;
use crate::state::VmbusState;
use crate::wire::Wire;
use vstd::prelude::*;

verus! {

/// `id` is the connection to post on: the lower 24 bits of the one that is
/// asked for; where none is, the negotiated one, and 4 before there is one.
pub open spec fn addresses(
    connection: Option<ConnectionState>,
    requested: u64,
    id: u32,
) -> bool {
    if requested != 0 {
        id < 0x100_0000 && (requested - id) % 0x100_0000 == 0
    } else {
        match connection {
            Some(agreed) => id == agreed.post_message_connection_id,
            None => id == 4,
        }
    }
}

pub(crate) proof fn lemma_addresses(connection: Option<ConnectionState>, requested: u64)
    ensures
        addresses(connection, requested, fuzz::resolved_id(connection, requested)),
{
    if requested != 0 {
        let q = requested as int / 0x100_0000;
        assert(requested - requested as int % 0x100_0000 == 0x100_0000 * q);
        assert((0x100_0000 * q) % 0x100_0000 == 0);
    }
}

/// Law: the connection that a raw message goes to.
pub proof fn law_connection_resolved(
    connection: &Option<ConnectionState>,
    requested: u64,
    r: u32,
)
    requires
        call_ensures(resolve_connection_id, (connection, requested), r),
    ensures
        addresses(*connection, requested, r),
{
    lemma_addresses(*connection, requested);
}

/// The first 240 bytes of `payload`, or all of it.
pub open spec fn cut(b: Seq<u8>, payload: Seq<u8>) -> bool {
    &&& b.len() == (if payload.len() <= 240 {
        payload.len() as int
    } else {
        240
    })
    &&& forall|i: int| 0 <= i < b.len() ==> #[trigger] b[i] == payload[i]
}

/// Law: raw bytes are posted as they are, cut to 240 of them.
pub proof fn law_raw_posted<C: HypercallTrait>(
    ctx: &mut HvCtx<C>,
    connection_id: u32,
    payload: &[u8],
    r: Result<()>,
)
    requires
        call_ensures(post_raw_message::<C>, (ctx, connection_id, payload), r),
    ensures
        final(ctx).log().len() == old(ctx).log().len() + 1,
        final(ctx).log().drop_last() == old(ctx).log(),
        final(ctx).log().last() is Posted,
        final(ctx).log().last()->Posted_connection_id == connection_id,
        cut(final(ctx).log().last()->Posted_payload, payload@),
        final(ctx).log().last()->Posted_result == r,
{
}

/// The first `j` events read the slot at `gpa`, and found no message there.
pub open spec fn idle(gpa: u64, ev: Seq<HvEvent>, j: int) -> bool {
    forall|i: int|
        0 <= i < j ==> {
            &&& (#[trigger] ev[i]) is SlotRead
            &&& ev[i]->SlotRead_gpa == gpa
            &&& ev[i]->SlotRead_bytes.len() >= 256
            &&& layout::word32(ev[i]->SlotRead_bytes, 0) == 0
        }
}

/// Looking for a message at `gpa` up to `polls` times made the events `ev`
/// and came to `r`: the slot is read until there is something in it; a
/// message is handed out as it stood there, once its slot is cleared and, if
/// more wait, its end is written.
pub open spec fn looks(gpa: u64, polls: nat, ev: Seq<HvEvent>, r: Result<Option<Seq<u8>>>) -> bool {
    exists|j: int|
        {
            &&& 0 <= j <= polls
            &&& j <= ev.len()
            &&& #[trigger] idle(gpa, ev, j)
            &&& if j == polls {
                ev.len() == j && r == Ok::<Option<Seq<u8>>, Error>(None)
            } else {
                let slot = ev[j]->SlotRead_bytes;
                &&& ev.len() > j
                &&& ev[j] is SlotRead
                &&& ev[j]->SlotRead_gpa == gpa
                &&& if slots::holds_message(slot) {
                    &&& ev[j + 1] == HvEvent::SlotCleared { gpa }
                    &&& if slot[5] % 2 == 1 {
                        &&& ev.len() == j + 3
                        &&& slots::ends_message(ev[j + 2])
                        &&& ev[j + 2]->Call_0.reply is Ok ==> r == Ok::<Option<Seq<u8>>, Error>(
                            Some(slots::message_of(slot)),
                        )
                        &&& ev[j + 2]->Call_0.reply is Err ==> r == Err::<Option<Seq<u8>>, Error>(
                            Error::Hypercall(ev[j + 2]->Call_0.reply->Err_0),
                        )
                    } else {
                        &&& ev.len() == j + 2
                        &&& r == Ok::<Option<Seq<u8>>, Error>(Some(slots::message_of(slot)))
                    }
                } else {
                    &&& ev.len() == j + 1
                    &&& slot.len() < 256 || layout::word32(slot, 0) != 0
                    &&& r == Err::<Option<Seq<u8>>, Error>(slots::slot_error(slot))
                }
            }
        }
}

proof fn lemma_looks(
    gpa: u64,
    polls: nat,
    table: (Seq<SlotState>, Seq<SlotState>),
    ev: Seq<HvEvent>,
    r: Result<Option<Seq<u8>>>,
)
    requires
        fuzz::capture_run(gpa, polls, table, ev, r),
    ensures
        looks(gpa, polls, ev, r),
    decreases polls,
{
    if polls == 0 {
        assert(idle(gpa, ev, 0));
    } else {
        let slot = ev[0]->SlotRead_bytes;
        let k = interrupt::capture_len(slot);
        let next = interrupt::drained_table(table.0, slot);
        let first = ev.take(k);
        slots::lemma_slot(slot);
        assert(first[0] == ev[0]);
        let d = choose|d: Result<Option<Seq<u8>>>| #[trigger]
            interrupt::captured(gpa, (table.0, next), first, d) && match d {
                Ok(None) => fuzz::capture_run(
                    gpa,
                    (polls - 1) as nat,
                    (next, table.1),
                    ev.skip(k),
                    r,
                ),
                _ => {
                    &&& ev.len() == k
                    &&& table.1 == next
                    &&& r == d
                },
            };
        if d == Ok::<Option<Seq<u8>>, Error>(None) {
            let rest = ev.skip(k);
            lemma_looks(gpa, (polls - 1) as nat, (next, table.1), rest, r);
            let j = choose|j: int|
                {
                    &&& 0 <= j <= polls - 1
                    &&& j <= rest.len()
                    &&& #[trigger] idle(gpa, rest, j)
                    &&& if j == polls - 1 {
                        rest.len() == j && r == Ok::<Option<Seq<u8>>, Error>(None)
                    } else {
                        let slot = rest[j]->SlotRead_bytes;
                        &&& rest.len() > j
                        &&& rest[j] is SlotRead
                        &&& rest[j]->SlotRead_gpa == gpa
                        &&& if slots::holds_message(slot) {
                            &&& rest[j + 1] == HvEvent::SlotCleared { gpa }
                            &&& if slot[5] % 2 == 1 {
                                &&& rest.len() == j + 3
                                &&& slots::ends_message(rest[j + 2])
                                &&& rest[j + 2]->Call_0.reply is Ok ==> r == Ok::<
                                    Option<Seq<u8>>,
                                    Error,
                                >(Some(slots::message_of(slot)))
                                &&& rest[j + 2]->Call_0.reply is Err ==> r == Err::<
                                    Option<Seq<u8>>,
                                    Error,
                                >(Error::Hypercall(rest[j + 2]->Call_0.reply->Err_0))
                            } else {
                                &&& rest.len() == j + 2
                                &&& r == Ok::<Option<Seq<u8>>, Error>(
                                    Some(slots::message_of(slot)),
                                )
                            }
                        } else {
                            &&& rest.len() == j + 1
                            &&& slot.len() < 256 || layout::word32(slot, 0) != 0
                            &&& r == Err::<Option<Seq<u8>>, Error>(slots::slot_error(slot))
                        }
                    }
                };
            assert(k == 1);
            assert forall|i: int| 0 <= i < rest.len() implies #[trigger] ev[i + 1] == rest[i] by {}
            assert(idle(gpa, ev, j + 1)) by {
                assert forall|i: int| 0 <= i < j + 1 implies {
                    &&& (#[trigger] ev[i]) is SlotRead
                    &&& ev[i]->SlotRead_gpa == gpa
                    &&& ev[i]->SlotRead_bytes.len() >= 256
                    &&& layout::word32(ev[i]->SlotRead_bytes, 0) == 0
                } by {
                    if i > 0 {
                        assert(ev[i] == rest[i - 1]);
                    }
                }
            }
            if j + 1 < polls {
                assert(ev[j + 1] == rest[j]);
                if rest.len() > j + 1 {
                    assert(ev[j + 2] == rest[j + 1]);
                }
                if rest.len() > j + 2 {
                    assert(ev[j + 3] == rest[j + 2]);
                }
            }
        } else {
            assert(first =~= ev);
            assert(idle(gpa, ev, 0));
            if k == 3 {
                match r {
                    Ok(_) => slots::lemma_eom(ev[2], Ok(())),
                    Err(e) => slots::lemma_eom(ev[2], Err(e)),
                }
            }
        }
    }
}

/// Law: a wait for a message reads the slot of the bus, 512 bytes into the
/// message page, until there is a message or the bound is reached; without a
/// message page there is none.
pub proof fn law_first_captured<C: HypercallTrait, H: ConnectResultHandler>(
    ctx: &mut HvCtx<C>,
    state: &mut VmbusState<H>,
    max_polls: usize,
    r: Result<Option<Vec<u8>>>,
)
    requires
        call_ensures(poll_capture::<C, H>, (ctx, state, max_polls), r),
    ensures
        final(state).connection == old(state).connection,
        final(state).synic == old(state).synic,
        match old(state).synic {
            None => {
                &&& r is Err
                &&& r->Err_0 == Error::VersionMismatch
                &&& final(ctx).log() == old(ctx).log()
            },
            Some(pages) => pages.simp_gpa <= u64::MAX - 512 ==> looks(
                (pages.simp_gpa + 512) as u64,
                max_polls as nat,
                final(ctx).log().skip(old(ctx).log().len() as int),
                interrupt::captured_bytes(r),
            ),
        },
{
    if old(state).synic is Some {
        lemma_looks(
            interrupt::slot_gpa(old(state).synic->0.simp_gpa),
            max_polls as nat,
            (old(state).table@, final(state).table@),
            final(ctx).log().skip(old(ctx).log().len() as int),
            interrupt::captured_bytes(r),
        );
    }
}

/// Posting `payload` to `to`, and then looking for an answer up to `polls`
/// times, went like this.
pub open spec fn posts_and_looks<H: ConnectResultHandler>(
    state: VmbusState<H>,
    to: u32,
    payload: Seq<u8>,
    polls: nat,
    log: (Seq<HvEvent>, Seq<HvEvent>),
    r: Result<Option<Seq<u8>>>,
) -> bool {
    let n = log.0.len() as int;
    &&& log.0.is_prefix_of(log.1)
    &&& log.1.len() > n
    &&& log.1[n] is Posted
    &&& log.1[n]->Posted_connection_id == to
    &&& cut(log.1[n]->Posted_payload, payload)
    &&& match log.1[n]->Posted_result {
        Err(e) => log.1.len() == n + 1 && r == Err::<Option<Seq<u8>>, Error>(e),
        Ok(_) => match state.synic {
            None => log.1.len() == n + 1 && r == Err::<Option<Seq<u8>>, Error>(
                Error::VersionMismatch,
            ),
            Some(pages) => pages.simp_gpa <= u64::MAX - 512 ==> looks(
                (pages.simp_gpa + 512) as u64,
                polls,
                log.1.skip(n + 1),
                r,
            ),
        },
    }
}

pub(crate) proof fn lemma_posts_and_looks<H: ConnectResultHandler>(
    state: (VmbusState<H>, VmbusState<H>),
    log: (Seq<HvEvent>, Seq<HvEvent>),
    to: u32,
    payload: Seq<u8>,
    polls: nat,
    r: Result<Option<Seq<u8>>>,
)
    requires
        fuzz::waited(state, log, to, payload, polls, r),
    ensures
        posts_and_looks(state.0, to, payload, polls, log, r),
{
    let n = log.0.len() as int;
    let ev = log.1.skip(n);
    assert(ev[0] == log.1[n]);
    assert(ev.skip(1) =~= log.1.skip(n + 1));
    if log.1[n]->Posted_result is Ok && state.0.synic is Some {
        lemma_looks(
            interrupt::slot_gpa(state.0.synic->0.simp_gpa),
            polls,
            (state.0.table@, state.1.table@),
            ev.skip(1),
            r,
        );
    }
}

/// Law: a raw message is posted first, and its answer looked for after that.
pub proof fn law_answer_awaited<C: HypercallTrait, H: ConnectResultHandler>(
    ctx: &mut HvCtx<C>,
    state: &mut VmbusState<H>,
    connection_id: u32,
    payload: &[u8],
    max_polls: usize,
    r: Result<Option<Vec<u8>>>,
)
    requires
        call_ensures(
            post_raw_message_wait::<C, H>,
            (ctx, state, connection_id, payload, max_polls),
            r,
        ),
    ensures
        posts_and_looks(
            *old(state),
            connection_id,
            payload@,
            max_polls as nat,
            (old(ctx).log(), final(ctx).log()),
            interrupt::captured_bytes(r),
        ),
{
    lemma_posts_and_looks(
        (*old(state), *final(state)),
        (old(ctx).log(), final(ctx).log()),
        connection_id,
        payload@,
        max_polls as nat,
        interrupt::captured_bytes(r),
    );
}

/// Number of slots cleared among `ev`.
pub open spec fn slots_cleared(ev: Seq<HvEvent>) -> nat
    decreases ev.len(),
{
    if ev.len() == 0 {
        0
    } else {
        slots_cleared(ev.drop_last()) + (if ev.last() is SlotCleared {
            1nat
        } else {
            0nat
        })
    }
}

proof fn lemma_slots_cleared(a: Seq<HvEvent>, b: Seq<HvEvent>)
    ensures
        slots_cleared(a + b) == slots_cleared(a) + slots_cleared(b),
    decreases b.len(),
{
    if b.len() == 0 {
        assert(a + b =~= a);
    } else {
        lemma_slots_cleared(a, b.drop_last());
        assert((a + b).drop_last() =~= a + b.drop_last());
    }
}

proof fn lemma_one_look(
    gpa: u64,
    table: (Seq<SlotState>, Seq<SlotState>),
    ev: Seq<HvEvent>,
    d: Result<Option<Seq<u8>>>,
)
    requires
        fuzz::capture_run(gpa, 1, table, ev, d),
    ensures
        slots::slot_reads(ev) == 1,
        d is Ok ==> slots_cleared(ev) == (if d->Ok_0 is Some {
            1nat
        } else {
            0nat
        }),
{
    reveal_with_fuel(slots::slot_reads, 4);
    reveal_with_fuel(slots_cleared, 4);
    reveal_with_fuel(fuzz::capture_run, 2);
    let slot = ev[0]->SlotRead_bytes;
    slots::lemma_slot(slot);
    let k = interrupt::capture_len(slot);
    assert(ev.take(k)[0] == ev[0]);
    assert(ev.len() == k) by {
        assert(ev.skip(k).len() == ev.len() - k);
    }
    assert(ev.take(k) =~= ev);
    if k == 2 {
        assert(ev.drop_last().drop_last() =~= Seq::<HvEvent>::empty());
    } else if k == 3 {
        match d {
            Ok(_) => slots::lemma_eom(ev[2], Ok(())),
            Err(e) => slots::lemma_eom(ev[2], Err(e)),
        }
        assert(ev.drop_last().drop_last().drop_last() =~= Seq::<HvEvent>::empty());
    } else {
        assert(ev.drop_last() =~= Seq::<HvEvent>::empty());
    }
}

proof fn lemma_drains(
    gpa: u64,
    polls: nat,
    table: (Seq<SlotState>, Seq<SlotState>),
    ev: Seq<HvEvent>,
    r: Result<nat>,
)
    requires
        fuzz::drain_run(gpa, polls, table, ev, r),
    ensures
        r matches Ok(n) ==> {
            &&& n <= polls
            &&& slots_cleared(ev) == n
            &&& slots::slot_reads(ev) == (if n == polls {
                n
            } else {
                n + 1
            })
        },
        slots::slot_reads(ev) <= polls,
    decreases polls,
{
    if polls > 0 {
        let (k, mid, d) = choose|k: int, mid: Seq<SlotState>, d: Result<Option<Seq<u8>>>| #[trigger]
            fuzz::capture_run(gpa, 1, (table.0, mid), ev.take(k), d) && 0 <= k <= ev.len()
                && match d {
                Err(e) => {
                    &&& k == ev.len()
                    &&& table.1 == mid
                    &&& r == Err::<nat, Error>(e)
                },
                Ok(None) => {
                    &&& k == ev.len()
                    &&& table.1 == mid
                    &&& r == Ok::<nat, Error>(0)
                },
                Ok(Some(_)) => (r matches Ok(n) ==> n >= 1) && fuzz::drain_run(
                    gpa,
                    (polls - 1) as nat,
                    (mid, table.1),
                    ev.skip(k),
                    fuzz::one_less(r),
                ),
            };
        lemma_one_look(gpa, (table.0, mid), ev.take(k), d);
        slots::lemma_slot_reads(ev.take(k), ev.skip(k));
        lemma_slots_cleared(ev.take(k), ev.skip(k));
        assert(ev.take(k) + ev.skip(k) =~= ev);
        if d is Ok && d->Ok_0 is Some {
            lemma_drains(gpa, (polls - 1) as nat, (mid, table.1), ev.skip(k), fuzz::one_less(r));
        } else {
            assert(ev.skip(k) =~= Seq::<HvEvent>::empty());
        }
    }
}

pub(crate) proof fn lemma_pending<H: ConnectResultHandler>(
    state: (VmbusState<H>, VmbusState<H>),
    log: (Seq<HvEvent>, Seq<HvEvent>),
    polls: nat,
    r: Result<nat>,
)
    requires
        fuzz::pending_drained(state, log, polls, r),
    ensures
        slots::slot_reads(log.1.skip(log.0.len() as int)) <= polls,
{
    let ev = log.1.skip(log.0.len() as int);
    if polls == 0 || state.0.synic is None {
        assert(ev =~= Seq::<HvEvent>::empty());
    } else {
        lemma_drains(
            interrupt::slot_gpa(state.0.synic->0.simp_gpa),
            polls,
            (state.0.table@, state.1.table@),
            ev,
            r,
        );
    }
}

/// Law: draining gives the number of messages that were taken out of the
/// slot. It stops at the first read that finds none, and after as many
/// messages as the bound says.
pub proof fn law_pending_drained<C: HypercallTrait, H: ConnectResultHandler>(
    ctx: &mut HvCtx<C>,
    state: &mut VmbusState<H>,
    max_polls: usize,
    r: Result<usize>,
)
    requires
        call_ensures(drain_pending::<C, H>, (ctx, state, max_polls), r),
    ensures
        ({
            let ev = final(ctx).log().skip(old(ctx).log().len() as int);
            &&& slots::slot_reads(ev) <= max_polls
            &&& r matches Ok(n) ==> {
                &&& n <= max_polls
                &&& slots_cleared(ev) == n
                &&& slots::slot_reads(ev) == (if n == max_polls {
                    n as int
                } else {
                    n + 1
                })
            }
            &&& old(state).synic is None && max_polls > 0 ==> r == Err::<usize, Error>(
                Error::VersionMismatch,
            ) && final(ctx).log()
                == old(ctx).log()
        }),
        final(state).connection == old(state).connection,
        final(state).synic == old(state).synic,
{
    let ev = final(ctx).log().skip(old(ctx).log().len() as int);
    if max_polls == 0 || old(state).synic is None {
        assert(ev =~= Seq::<HvEvent>::empty());
    } else {
        let n: Result<nat> = match r {
            Ok(n) => Ok(n as nat),
            Err(e) => Err(e),
        };
        lemma_drains(
            interrupt::slot_gpa(old(state).synic->0.simp_gpa),
            max_polls as nat,
            (old(state).table@, final(state).table@),
            ev,
            n,
        );
    }
}

/// Law: the ids are those of the offers, one for each, in their order.
pub proof fn law_relids_listed(offers: &[OfferChannel], r: Vec<u32>, i: int)
    requires
        call_ensures(relids, (offers,), r),
    ensures
        r@.len() == offers@.len(),
        0 <= i < offers@.len() ==> r@[i] == offers@[i].channel_id.0,
{
}

/// Law: opening a raw channel makes its ring region, 18 pages one after the
/// other from its address on, known to the host, and then opens the channel
/// over it with the second ring at page 9, the connection id of the offer and
/// an event flag made of the lower half of the channel id. It starts with
/// transaction 1.
pub proof fn law_raw_opened<M: RingMem, C: HypercallTrait, H: ConnectResultHandler>(
    ctx: &mut HvCtx<C>,
    state: &mut VmbusState<H>,
    offer: &OfferChannel,
    region: Option<RingRegion<M>>,
    r: Result<RawChannel<M>>,
    i: int,
)
    requires
        call_ensures(RawChannel::<M>::open::<C, H>, (ctx, state, offer, region), r),
        region matches Some(g) ==> g.base_gpa + 73728 <= u64::MAX,
    ensures
        region is None ==> r == Err::<RawChannel<M>, Error>(
            Error::Parse { ty: None, reason: "raw channel ring allocation failed" },
        ) && final(ctx).log() == old(ctx).log() && *final(state) == *old(state),
        opens_raw((*old(state), *final(state)), (old(ctx).log(), final(ctx).log()), *offer, region, r, i),
{
    lemma_raw_opened((*old(state), *final(state)), (old(ctx).log(), final(ctx).log()), *offer, region, r, i);
}

/// Opening a raw channel went like this.
pub open spec fn opens_raw<M: RingMem, H: ConnectResultHandler>(
    state: (VmbusState<H>, VmbusState<H>),
    log: (Seq<HvEvent>, Seq<HvEvent>),
    offer: OfferChannel,
    region: Option<RingRegion<M>>,
    r: Result<RawChannel<M>>,
    i: int,
) -> bool {
    &&& region is Some && region->0.base_gpa + 73728 <= u64::MAX ==> nics::consecutive(
        netvsp::page_frames(region->0.base_gpa, 18),
        region->0.base_gpa,
        18,
    )
    &&& r matches Ok(raw) ==> {
        &&& region is Some
        &&& raw.base_gpa == region->0.base_gpa
        &&& raw.next_transaction_id == 1
        &&& exists|mid_log: Seq<HvEvent>, ring: GpadlHandle|
            {
                &&& regions::makes(
                    state.0.connection->0.post_message_connection_id,
                    ring,
                    73728,
                    netvsp::page_frames(region->0.base_gpa, 18),
                    (log.0, mid_log),
                    Ok(ring),
                    i,
                )
                &&& #[trigger] channels::opens(
                    state.0.connection->0,
                    state.0.open_ids.next,
                    offer.channel_id,
                    ring,
                    8,
                    offer.connection_id,
                    (offer.channel_id.0 % 0x1_0000) as u16,
                    (mid_log, log.1),
                    Ok(raw.link.channel),
                )
            }
    }
}

pub(crate) proof fn lemma_raw_opened<M: RingMem, H: ConnectResultHandler>(
    state: (VmbusState<H>, VmbusState<H>),
    log: (Seq<HvEvent>, Seq<HvEvent>),
    offer: OfferChannel,
    region: Option<RingRegion<M>>,
    r: Result<RawChannel<M>>,
    i: int,
)
    requires
        fuzz::raw_opened(state, log, offer, region, r),
    ensures
        opens_raw(state, log, offer, region, r, i),
{
    if region is Some {
        let g = region->0;
        if g.base_gpa + 73728 <= u64::MAX {
            nics::lemma_consecutive(g.base_gpa, 18);
        }
        if r is Ok {
            let raw = r->Ok_0;
            let pages = netvsp::page_frames(g.base_gpa, 18);
            let (mid, mid_log, ring) = choose|
                mid: VmbusState<H>,
                mid_log: Seq<HvEvent>,
                ring: Result<GpadlHandle>,
            | #[trigger]
                gpadl::made(
                    (state.0, mid),
                    (log.0, mid_log),
                    offer.channel_id,
                    73728,
                    pages,
                    ring,
                ) && match ring {
                    Err(e) => {
                        &&& state.1 == mid
                        &&& log.1 == mid_log
                        &&& r == Err::<RawChannel<M>, Error>(e)
                    },
                    Ok(handle) => {
                        &&& fuzz::opened_or_undone(
                            (mid, state.1),
                            (mid_log, log.1),
                            offer,
                            handle,
                            match r {
                                Ok(raw) => Ok(raw.link.channel),
                                Err(e) => Err(e),
                            },
                        )
                        &&& r matches Ok(raw) ==> raw.fresh(g)
                    },
                };
            let handle = ring->Ok_0;
            let flag = (offer.channel_id.0 % 0x1_0000) as u16;
            let answer: Result<Channel> = Ok(raw.link.channel);
            let to = state.0.connection->0.post_message_connection_id;
            assert(fuzz::opened_or_undone((mid, state.1), (mid_log, log.1), offer, handle, answer));
            regions::lemma_makes(
                to,
                GpadlHandle {
                    channel_id: offer.channel_id,
                    gpadl_id: GpadlId(state.0.gpadl_ids.next),
                },
                73728,
                pages,
                (state.0.table@, mid.table@),
                (log.0, mid_log),
                ring,
                i,
            );
            assert(regions::makes(to, handle, 73728, pages, (log.0, mid_log), Ok(handle), i));
            channels::lemma_opens(
                (mid, state.1),
                (mid_log, log.1),
                offer.channel_id,
                handle,
                8,
                offer.connection_id,
                flag,
                answer,
            );
            assert(channels::opens(
                state.0.connection->0,
                state.0.open_ids.next,
                offer.channel_id,
                handle,
                8,
                offer.connection_id,
                flag,
                (mid_log, log.1),
                answer,
            ));
        }
    }
}

/// Law: where the host refuses to open a raw channel, the region that it was
/// told of is torn down again.
pub proof fn law_raw_refused<M: RingMem, C: HypercallTrait, H: ConnectResultHandler>(
    ctx: &mut HvCtx<C>,
    state: &mut VmbusState<H>,
    offer: &OfferChannel,
    region: Option<RingRegion<M>>,
    r: Result<RawChannel<M>>,
    i: int,
)
    requires
        call_ensures(RawChannel::<M>::open::<C, H>, (ctx, state, offer, region), r),
        region matches Some(g) ==> g.base_gpa + 73728 <= u64::MAX,
        r is Err,
        region is Some,
        old(state).connection is Some,
        old(state).synic is Some,
    ensures
        exists|made: Seq<HvEvent>, ring: Result<GpadlHandle>|
            {
                &&& #[trigger] regions::makes(
                    old(state).connection->0.post_message_connection_id,
                    GpadlHandle {
                        channel_id: offer.channel_id,
                        gpadl_id: GpadlId(old(state).gpadl_ids.next),
                    },
                    73728,
                    netvsp::page_frames(region->0.base_gpa, 18),
                    (old(ctx).log(), made),
                    ring,
                    i,
                )
                &&& ring is Err ==> final(ctx).log() == made
                &&& ring is Ok ==> exists|tried: Seq<HvEvent>, t: Result<()>|
                    {
                        &&& made.is_prefix_of(tried)
                        &&& tried.len() > made.len()
                        &&& #[trigger] regions::tears_down(
                            old(state).connection->0.post_message_connection_id,
                            GpadlHandle {
                                channel_id: offer.channel_id,
                                gpadl_id: GpadlId(old(state).gpadl_ids.next),
                            },
                            (tried, final(ctx).log()),
                            t,
                        )
                    }
            },
{
    let g = region->0;
    let pages = netvsp::page_frames(g.base_gpa, 18);
    let (mid, mid_log, ring) = choose|
        mid: VmbusState<H>,
        mid_log: Seq<HvEvent>,
        ring: Result<GpadlHandle>,
    | #[trigger]
        gpadl::made(
            (*old(state), mid),
            (old(ctx).log(), mid_log),
            offer.channel_id,
            73728,
            pages,
            ring,
        ) && match ring {
            Err(e) => {
                &&& *final(state) == mid
                &&& final(ctx).log() == mid_log
                &&& r == Err::<RawChannel<M>, Error>(e)
            },
            Ok(handle) => {
                &&& fuzz::opened_or_undone(
                    (mid, *final(state)),
                    (mid_log, final(ctx).log()),
                    *offer,
                    handle,
                    match r {
                        Ok(raw) => Ok(raw.link.channel),
                        Err(e) => Err(e),
                    },
                )
                &&& r matches Ok(raw) ==> raw.fresh(g)
            },
        };
    let to = old(state).connection->0.post_message_connection_id;
    let id = GpadlHandle {
        channel_id: offer.channel_id,
        gpadl_id: GpadlId(old(state).gpadl_ids.next),
    };
    regions::lemma_makes(
        to,
        id,
        73728,
        pages,
        (old(state).table@, mid.table@),
        (old(ctx).log(), mid_log),
        ring,
        i,
    );
    if ring is Ok {
        let handle = ring->Ok_0;
        let e = r->Err_0;
        let refused: Result<Channel> = Err(e);
        let log = (mid_log, final(ctx).log());
        assert(fuzz::opened_or_undone((mid, *final(state)), log, *offer, handle, refused));
        let (opened, tried) = choose|opened: VmbusState<H>, tried: Seq<HvEvent>| #[trigger]
            crate::channel::opened_over(
                (mid, opened),
                (log.0, tried),
                offer.channel_id,
                handle,
                netvsp::RING_DATA_PAGES as u32,
                offer.connection_id,
                (offer.channel_id.0 % 65536) as u16,
                refused,
            ) && exists|t: Result<()>| #[trigger]
                gpadl::torn_down((opened, *final(state)), (tried, log.1), handle, t);
        let t = choose|t: Result<()>| #[trigger]
            gpadl::torn_down((opened, *final(state)), (tried, log.1), handle, t);
        assert(handle == id);
        channels::lemma_opens(
            (mid, opened),
            (log.0, tried),
            offer.channel_id,
            handle,
            8,
            offer.connection_id,
            (offer.channel_id.0 % 65536) as u16,
            refused,
        );
        lemma_torn_down((opened, *final(state)), (tried, log.1), handle, t);
    }
}

pub(crate) proof fn lemma_torn_down<H: ConnectResultHandler>(
    state: (VmbusState<H>, VmbusState<H>),
    log: (Seq<HvEvent>, Seq<HvEvent>),
    handle: GpadlHandle,
    r: Result<()>,
)
    requires
        gpadl::torn_down(state, log, handle, r),
        state.0.synic is Some,
        state.0.connection is Some,
    ensures
        regions::tears_down(
            state.0.connection->0.post_message_connection_id,
            handle,
            log,
            r,
        ),
{
    regions::lemma_tears_down(handle);
    let n = log.0.len() as int;
    let ev = log.1.skip(n);
    assert(ev[0] == log.1[n]);
    if ev.len() > 1 {
        assert(ev[1] == log.1[n + 1]);
    }
}

/// Law: transactions are numbered one after the other; behind the largest
/// number comes 0. Nothing else changes.
pub proof fn law_transactions_numbered<M: RingMem>(raw: &mut RawChannel<M>, r: u64)
    requires
        call_ensures(RawChannel::<M>::next_transaction_id, (raw,), r),
    ensures
        r == old(raw).next_transaction_id,
        r < u64::MAX ==> final(raw).next_transaction_id == r + 1,
        r == u64::MAX ==> final(raw).next_transaction_id == 0,
        final(raw).link == old(raw).link,
        final(raw).base_gpa == old(raw).base_gpa,
{
}

/// Signalling the host of `channel` went like this.
pub open spec fn signals(
    channel: Channel,
    log: (Seq<HvEvent>, Seq<HvEvent>),
    r: Result<()>,
) -> bool {
    if channel.state != ChannelState::Open {
        r == Err::<(), Error>(Error::Rescinded) && log.1 == log.0
    } else {
        &&& log.1.len() == log.0.len() + 1
        &&& log.1.drop_last() == log.0
        &&& log.1.last() is Call
        &&& log.1.last()->Call_0.code == 0x5d
        &&& log.1.last()->Call_0.input.len() == 8
        &&& layout::word32(log.1.last()->Call_0.input, 0) == channel.connection_id
        &&& layout::word32(log.1.last()->Call_0.input, 4) == 0
        &&& r is Ok <==> log.1.last()->Call_0.reply is Ok
    }
}

proof fn lemma_signals(channel: Channel, log: (Seq<HvEvent>, Seq<HvEvent>), r: Result<()>)
    requires
        channel.signalled(log, r),
    ensures
        signals(channel, log, r),
{
    if channel.state == ChannelState::Open {
        let m = crate::hv::SignalEvent {
            connection_id: channel.connection_id,
            flag_number: 0,
            rsvd: 0,
        };
        m.lemma_wire_len();
        let input = log.1.last()->Call_0.input;
        assert(input.subrange(0, 8) =~= input);
        layout::law_hv_signal_event_layout(m, input, 0);
    }
}

/// Sending `payload` behind a descriptor went like this: `given` stands in
/// front as it is, or else a descriptor of type `ty` with the flags and the
/// transaction number. The host is signalled exactly if the ring says so.
pub open spec fn sends<M: RingMem>(
    a: RawChannel<M>,
    given: Option<Seq<u8>>,
    ty: int,
    payload: Seq<u8>,
    flags: int,
    log: (Seq<HvEvent>, Seq<HvEvent>),
    b: RawChannel<M>,
    r: Result<()>,
) -> bool {
    &&& b.link.channel == a.link.channel
    &&& b.link.recv == a.link.recv
    &&& b.base_gpa == a.base_gpa
    &&& b.next_transaction_id == (if given is None {
        if a.next_transaction_id == u64::MAX {
            0
        } else {
            a.next_transaction_id + 1
        }
    } else {
        a.next_transaction_id as int
    })
    &&& a.link.send.exclusive() && rings::usual(a.link.send.state()) ==> {
        let s = a.link.send.state();
        let t = b.link.send.state();
        let n = 24 + rings::up8(payload.len() as int);
        exists|w: Result<bool>|
            {
                &&& #[trigger] rings::writes(s, t, n, w)
                &&& w is Ok ==> match given {
                    None => rings::is_packet(
                        rings::written(s, t, n),
                        s.words[0],
                        ty,
                        Seq::<u8>::empty(),
                        payload,
                        flags,
                        a.next_transaction_id as int,
                    ),
                    Some(d) => {
                        &&& rings::written(s, t, n).take(16) == d
                        &&& rings::is_body(
                            rings::written(s, t, n),
                            s.words[0],
                            Seq::<u8>::empty(),
                            payload,
                        )
                    },
                }
                &&& match w {
                    Err(e) => r == Err::<(), Error>(e) && log.1 == log.0,
                    Ok(wake) => if wake {
                        signals(a.link.channel, log, r)
                    } else {
                        r == Ok::<(), Error>(()) && log.1 == log.0
                    },
                }
            }
    }
}

pub(crate) proof fn lemma_sends<M: RingMem>(
    a: RawChannel<M>,
    given: Option<Seq<u8>>,
    ty: u16,
    payload: Seq<u8>,
    flags: u16,
    log: (Seq<HvEvent>, Seq<HvEvent>),
    b: RawChannel<M>,
    r: Result<()>,
)
    requires
        a.wf(),
        given matches Some(d) ==> d.len() == 16,
        a.sent(
            match given {
                Some(d) => packet::raw_packet(d, payload),
                None => OutPacket {
                    packet_type: PacketType(ty),
                    ext_header: Seq::empty(),
                    payload,
                    flags: PacketFlags(flags),
                    transaction_id: a.next_transaction_id,
                    verbatim: None,
                },
            },
            log,
            b,
            r,
        ),
        b.next_transaction_id == (if given is None {
            fuzz::following(a.next_transaction_id)
        } else {
            a.next_transaction_id
        }),
    ensures
        sends(a, given, ty as int, payload, flags as int, log, b, r),
{
    if a.link.send.exclusive() && rings::usual(a.link.send.state()) {
        let p = match given {
            Some(d) => packet::raw_packet(d, payload),
            None => OutPacket {
                packet_type: PacketType(ty),
                ext_header: Seq::empty(),
                payload,
                flags: PacketFlags(flags),
                transaction_id: a.next_transaction_id,
                verbatim: None,
            },
        };
        let w = choose|w: Result<bool>| #[trigger]
            a.link.send.wrote(p, b.link.send, w) && match w {
                Err(e) => r == Err::<(), Error>(e) && log.1 == log.0,
                Ok(false) => r == Ok::<(), Error>(()) && log.1 == log.0,
                Ok(true) => a.link.channel.signalled(log, r),
            };
        rings::lemma_sizes(p);
        rings::lemma_writes(a.link.send, p, b.link.send, w);
        if w is Ok {
            rings::lemma_packet(p, a.link.send.state().words[0]);
        }
        if w == Ok::<bool, Error>(true) {
            lemma_signals(a.link.channel, log, r);
        }
        assert(rings::writes(
            a.link.send.state(),
            b.link.send.state(),
            24 + rings::up8(payload.len() as int),
            w,
        ));
    }
}

/// Law: a packet of any type over a raw channel gets the next transaction
/// number and a descriptor that agrees with it.
pub proof fn law_raw_packet_typed<M: RingMem, C: HypercallTrait>(
    raw: &mut RawChannel<M>,
    ctx: &mut HvCtx<C>,
    packet_type: PacketType,
    payload: &[u8],
    flags: PacketFlags,
    r: Result<()>,
)
    requires
        old(raw).wf(),
        call_ensures(
            RawChannel::<M>::send_packet::<C>,
            (raw, ctx, packet_type, payload, flags),
            r,
        ),
    ensures
        sends(
            *old(raw),
            None,
            packet_type.0 as int,
            payload@,
            flags.0 as int,
            (old(ctx).log(), final(ctx).log()),
            *final(raw),
            r,
        ),
{
    lemma_sends(
        *old(raw),
        None,
        packet_type.0,
        payload@,
        flags.0,
        (old(ctx).log(), final(ctx).log()),
        *final(raw),
        r,
    );
}

/// Law: a packet whose descriptor the caller brings takes no transaction
/// number, and its descriptor stands in the ring as it is.
pub proof fn law_raw_packet_given<M: RingMem, C: HypercallTrait>(
    raw: &mut RawChannel<M>,
    ctx: &mut HvCtx<C>,
    descriptor: &[u8; 16],
    payload: &[u8],
    r: Result<()>,
)
    requires
        old(raw).wf(),
        call_ensures(
            RawChannel::<M>::send_raw_packet::<C>,
            (raw, ctx, descriptor, payload),
            r,
        ),
    ensures
        sends(
            *old(raw),
            Some(descriptor@),
            0,
            payload@,
            0,
            (old(ctx).log(), final(ctx).log()),
            *final(raw),
            r,
        ),
{
    lemma_sends(
        *old(raw),
        Some(descriptor@),
        0,
        payload@,
        0,
        (old(ctx).log(), final(ctx).log()),
        *final(raw),
        r,
    );
}

/// Law: draining the ring for receiving reads packets into 32 KiB until a
/// read fails or there were as many as asked for, and counts those that there
/// were. Nothing else of the channel changes.
pub proof fn law_received_drained<M: RingMem>(
    raw: &mut RawChannel<M>,
    max_packets: usize,
    count: usize,
)
    requires
        old(raw).wf(),
        call_ensures(RawChannel::<M>::drain_recv, (raw, max_packets), count),
    ensures
        count <= max_packets,
        final(raw).link.channel == old(raw).link.channel,
        final(raw).link.send == old(raw).link.send,
        final(raw).base_gpa == old(raw).base_gpa,
        final(raw).next_transaction_id == old(raw).next_transaction_id,
        max_packets == 0 ==> final(raw).link.recv == old(raw).link.recv,
        exists|outs: Seq<Result<InPacket>>|
            {
                &&& #[trigger] old(raw).link.recv.read_run(32768, outs, final(raw).link.recv)
                &&& forall|i: int| 0 <= i < count ==> (#[trigger] outs[i]) is Ok
                &&& if count == max_packets {
                    outs.len() == count
                } else {
                    outs.len() == count + 1 && outs.last() is Err
                }
            },
{
    let outs = choose|outs: Seq<Result<InPacket>>| #[trigger]
        old(raw).link.recv.read_run(32768, outs, final(raw).link.recv) && fuzz::drained(
            outs,
            max_packets as nat,
            count as nat,
        );
    assert(old(raw).link.recv.read_run(32768, outs, final(raw).link.recv));
}

/// Closing a raw channel went like this: the channel is closed, and then its
/// region torn down, whatever came of closing it; what came of that is given
/// back.
pub open spec fn closes_raw<H: ConnectResultHandler>(
    state: VmbusState<H>,
    channel: Channel,
    log: (Seq<HvEvent>, Seq<HvEvent>),
    r: Result<()>,
) -> bool {
    match state.connection {
        None => r == Err::<(), Error>(Error::VersionMismatch) && log.1 == log.0,
        Some(agreed) => exists|mid_log: Seq<HvEvent>|
            {
                &&& #[trigger] channels::closes(
                    agreed.post_message_connection_id,
                    channel,
                    (log.0, mid_log),
                    r,
                )
                &&& if state.synic is None {
                    mid_log == log.1
                } else {
                    exists|torn: Result<()>| #[trigger]
                        regions::tears_down(
                            agreed.post_message_connection_id,
                            channel.ring_gpadl,
                            (mid_log, log.1),
                            torn,
                        )
                }
            },
    }
}

pub(crate) proof fn lemma_closes_raw<H: ConnectResultHandler>(
    state: (VmbusState<H>, VmbusState<H>),
    channel: Channel,
    log: (Seq<HvEvent>, Seq<HvEvent>),
    r: Result<()>,
)
    requires
        fuzz::raw_closed(state, log, channel, r),
    ensures
        closes_raw(state.0, channel, log, r),
{
    let (mid_log, torn) = choose|mid_log: Seq<HvEvent>, torn: Result<()>|
        crate::channel::closed_over(state.0.connection, (log.0, mid_log), channel, r)
            && #[trigger] gpadl::torn_down(
            (state.0, state.1),
            (mid_log, log.1),
            channel.ring_gpadl,
            torn,
        );
    if state.0.connection is Some {
        let to = state.0.connection->0.post_message_connection_id;
        channels::lemma_close_messages(channel.channel_id);
        let n = log.0.len() as int;
        let ev = mid_log.skip(n);
        assert(ev[0] == mid_log[n]);
        if ev.len() > 1 {
            assert(ev[1] == mid_log[n + 1]);
        }
        assert(channels::closes(to, channel, (log.0, mid_log), r));
        if state.0.synic is Some {
            lemma_torn_down(state, (mid_log, log.1), channel.ring_gpadl, torn);
        }
    }
}

/// Law: closing a raw channel.
pub proof fn law_raw_closed<M: RingMem, C: HypercallTrait, H: ConnectResultHandler>(
    raw: RawChannel<M>,
    ctx: &mut HvCtx<C>,
    state: &mut VmbusState<H>,
    r: Result<()>,
)
    requires
        call_ensures(RawChannel::<M>::close::<C, H>, (raw, ctx, state), r),
    ensures
        closes_raw(*old(state), raw.link.channel, (old(ctx).log(), final(ctx).log()), r),
{
    lemma_closes_raw(
        (*old(state), *final(state)),
        raw.link.channel,
        (old(ctx).log(), final(ctx).log()),
        r,
    );
}

} // verus!
