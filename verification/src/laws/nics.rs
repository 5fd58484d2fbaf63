//! The network device: its messages byte by byte, its pages and its buffers.
use crate::channel::Channel;
use crate::channel::ChannelState;
use crate::devices::link;
use crate::devices::link::Link;
use crate::devices::netvsp;
use crate::devices::netvsp::encode_message;
use crate::devices::netvsp::frame_size_for;
use crate::devices::netvsp::interface_guid;
use crate::devices::netvsp::list_page_frames;
use crate::devices::netvsp::parse_header;
use crate::devices::netvsp::parse_init_complete;
use crate::devices::netvsp::parse_recv_buf_complete;
use crate::devices::netvsp::parse_send_buf_complete;
use crate::devices::netvsp::MessageHeader;
use crate::devices::netvsp::NdisCapabilities;
use crate::devices::netvsp::Netvsp;
use crate::devices::netvsp::Nvsp1MsgSendBuffer;
use crate::devices::netvsp::Nvsp1MsgSendNdisVersion;
use crate::devices::netvsp::Nvsp1MsgSendRecvBufComplete;
use crate::devices::netvsp::Nvsp1MsgSendSendBufComplete;
use crate::devices::netvsp::Nvsp2MsgSendNdisConfig;
use crate::devices::netvsp::NvspMsgInit;
use crate::devices::netvsp::NvspMsgInitComplete;
use crate::devices::netvsp::OwnedBuf;
use crate::devices::netvsp::RingRegion;
use crate::devices::netvsp::Version;
use crate::error::Error;
use crate::error::Result;
use crate::gpadl;
use crate::gpadl::GpadlHandle;
use crate::hvsock::ConnectResultHandler;
use crate::hypercalls::HvCtx;
use crate::hypercalls::HvEvent;
use crate::hypercalls::HypercallTrait;
use crate::laws::channels;
use crate::laws::decoding;
use crate::laws::keys;
use crate::laws::layout;
use crate::laws::regions;
use crate::laws::rings;
use crate::packet::InPacket;
use crate::packet::OutPacket;
use crate::protocol::GpadlId;
use crate::protocol::Guid;
use crate::protocol::OfferChannel;
use crate::protocol::PacketFlags;
use crate::ring::RingMem;
use crate::state::VmbusState;
use crate::wire;
use crate::wire::Wire;
use vstd::prelude::*;

verus! {

/// Law: the network device is `f8615163-df3e-46c5-913f-f2d2f965ed0e`.
pub proof fn law_network_interface(r: Guid)
    requires
        call_ensures(interface_guid, (), r),
    ensures
        r.data1 == 0xf861_5163,
        r.data2 == 0xdf3e,
        r.data3 == 0x46c5,
        r.data4@ == seq![0x91u8, 0x3f, 0xf2, 0xd2, 0xf9, 0x65, 0xed, 0x0e],
{
}

/// These are the numbers of `n` pages one after the other, from the page at
/// `base_gpa` on.
pub open spec fn consecutive(pages: Seq<u64>, base_gpa: u64, n: int) -> bool {
    &&& pages.len() == n
    &&& n > 0 ==> pages[0] == base_gpa / 4096
    &&& forall|i: int, j: int|
        0 <= i < n && 0 <= j < n ==> #[trigger] pages[j] - #[trigger] pages[i] == j - i
}

pub(crate) proof fn lemma_consecutive(base_gpa: u64, n: nat)
    requires
        base_gpa + 4096 * n <= u64::MAX,
    ensures
        consecutive(netvsp::page_frames(base_gpa, n), base_gpa, n as int),
{
    let p = netvsp::page_frames(base_gpa, n);
    assert forall|i: int| 0 <= i < n implies #[trigger] p[i] == base_gpa / 4096 + i by {
        assert((base_gpa + i * 4096) / 4096 == base_gpa / 4096 + i);
        assert(base_gpa / 4096 + i <= u64::MAX);
    }
}

/// Law: the pages of a region are listed one after the other: the first is
/// the one at its address, each is one more than the one before, every page
/// of the region is listed, and none twice.
pub proof fn law_pages_listed(base_gpa: u64, n: usize, r: Vec<u64>, page: int)
    requires
        base_gpa + 4096 * n <= u64::MAX,
        call_ensures(list_page_frames, (base_gpa, n), r),
    ensures
        consecutive(r@, base_gpa, n as int),
        r@.no_duplicates(),
        0 <= page < n ==> r@[page] == base_gpa / 4096 + page,
        0 <= page < n && base_gpa % 4096 == 0 ==> 4096 * r@[page] == base_gpa + 4096 * page,
        base_gpa / 4096 <= page < base_gpa / 4096 + n ==> r@.contains(page as u64),
{
    lemma_consecutive(base_gpa, n as nat);
    if n > 0 {
        if 0 <= page < n {
            assert(r@[page] - r@[0] == page);
        }
        if base_gpa / 4096 <= page < base_gpa / 4096 + n {
            let i = page - base_gpa / 4096;
            assert(r@[i] - r@[0] == i);
        }
    }
    assert forall|i: int, j: int| 0 <= i < n && 0 <= j < n && i != j implies r@[i] != r@[j] by {
        assert(r@[j] - r@[i] == j - i);
    }
}

/// Law: the numbers of the versions, major number in the upper half, and the
/// order in which they are asked for.
pub proof fn law_nvsp_versions(v: Version, r: u32)
    requires
        call_ensures(Version::raw, (v,), r),
    ensures
        r == v.number(),
        match v {
            Version::V1 => r == 2,
            Version::V2 => r == 3 * 0x1_0000 + 2,
            Version::V4 => r == 4 * 0x1_0000,
            Version::V5 => r == 5 * 0x1_0000,
            Version::V6 => r == 6 * 0x1_0000,
            Version::V61 => r == 6 * 0x1_0000 + 1,
        },
        netvsp::NEGOTIATION_LADDER@.map_values(|v: Version| v.number() as int) == seq![
            0x6_0001int,
            0x6_0000,
            0x5_0000,
            0x4_0000,
            0x3_0002,
            2,
        ],
{
}

/// Law: a version that was agreed on is told by its number, and any other
/// number is none.
pub proof fn law_version_typed<M: RingMem>(nic: Netvsp<M>, r: Result<Version>)
    requires
        call_ensures(Netvsp::<M>::version_typed, (&nic,), r),
    ensures
        r matches Ok(v) ==> v.number() == nic.version,
        r matches Err(e) ==> e == Error::VersionMismatch
            && ![0x2u32, 0x3_0002, 0x4_0000, 0x5_0000, 0x6_0000, 0x6_0001]@.contains(
            nic.version,
        ),
{
}

/// Law: frames have 40 bytes in version 6.1 and 28 before.
pub proof fn law_frame_size(v: Version, r: usize)
    requires
        call_ensures(frame_size_for, (v,), r),
    ensures
        r == (if v.number() == 0x6_0001 {
            40int
        } else {
            28
        }),
{
}

/// Law: VLAN tagging (bit 3) is always offered, SR-IOV (bit 2) and teaming
/// (bit 5) from version 5 on, receive coalescing (bit 7) from 6.1 on.
pub proof fn law_capabilities(v: Version, r: NdisCapabilities)
    requires
        call_ensures(NdisCapabilities::recommended, (v,), r),
    ensures
        r.0 == 8 + (if v.number() >= 0x5_0000 {
            4 + 32int
        } else {
            0
        }) + (if v.number() >= 0x6_0001 {
            128int
        } else {
            0
        }),
{
}

/// A frame of `size` bytes: its type in bytes 0 to 4, `body` from byte 4 on,
/// and zeros behind it.
pub open spec fn is_frame(b: Seq<u8>, ty: int, body: Seq<u8>, size: int) -> bool {
    &&& b.len() == size
    &&& 4 + body.len() <= size
    &&& layout::word32(b, 0) == ty
    &&& b.subrange(4, 4 + body.len() as int) == body
    &&& forall|i: int| 4 + body.len() <= i < size ==> #[trigger] b[i] == 0
}

proof fn lemma_frame(ty: u32, body: Seq<u8>, size: int)
    requires
        4 + body.len() <= size,
    ensures
        is_frame(netvsp::frame(ty, body, size), ty as int, body, size),
{
    let b = netvsp::frame(ty, body, size);
    let h = MessageHeader { message_type: ty };
    h.lemma_wire_len();
    assert(b.subrange(0, 4) =~= h.wire());
    layout::law_nvsp_message_header_layout(h, b, 0);
    assert(b.subrange(4, 4 + body.len() as int) =~= body);
}

/// Law: a message is put into a frame of its version's size, or refused, and
/// the buffer left alone, where frame or buffer is too small.
pub proof fn law_message_framed<T: Wire>(
    ty: u32,
    body: &T,
    v: Version,
    out: &mut [u8],
    r: core::result::Result<usize, ()>,
)
    requires
        call_ensures(encode_message::<T>, (ty, body, v, out), r),
    ensures
        ({
            let size = if v.number() == 0x6_0001 {
                40int
            } else {
                28
            };
            &&& r is Ok <==> old(out)@.len() >= size && 4 + T::wire_len() <= size
            &&& r matches Ok(n) ==> {
                &&& n == size
                &&& is_frame(final(out)@.take(size), ty as int, body.wire(), size)
                &&& final(out)@.skip(size) == old(out)@.skip(size)
            }
            &&& r is Err ==> final(out)@ == old(out)@
        }),
{
    body.lemma_wire_len();
    if r is Ok {
        let n = r->Ok_0 as int;
        lemma_frame(ty, body.wire(), n);
        let f = netvsp::frame(ty, body.wire(), n);
        assert(final(out)@.take(n) =~= f);
        assert(final(out)@.skip(n) =~= old(out)@.skip(n));
    }
}

proof fn lemma_header_type(b: Seq<u8>)
    requires
        b.len() >= 4,
    ensures
        netvsp::header_type(b) == layout::word32(b, 0),
{
    decoding::law_nvsp_message_header_decodes(b.take(4));
    let h = wire::decoded::<MessageHeader>(b.take(4));
    assert(b.subrange(0, 4) =~= b.take(4));
    layout::law_nvsp_message_header_layout(h, b, 0);
}

/// Law: a frame is its type and what follows.
pub proof fn law_frame_parsed(b: &[u8], r: core::result::Result<(u32, &[u8]), ()>)
    requires
        call_ensures(parse_header, (b,), r),
    ensures
        r is Ok <==> b@.len() >= 4,
        r matches Ok((ty, rest)) ==> ty == layout::word32(b@, 0) && rest@ == b@.skip(4),
{
    if b@.len() >= 4 {
        lemma_header_type(b@);
    }
}

/// Law: an answer to a version request is of type 2, and the host accepted if
/// bytes 12 to 16 say 1.
pub proof fn law_init_answered(b: &[u8], r: Result<bool>)
    requires
        call_ensures(parse_init_complete, (b,), r),
    ensures
        r is Ok <==> b@.len() >= 16 && layout::word32(b@, 0) == 2,
        r matches Ok(yes) ==> yes == (layout::word32(b@, 12) == 1),
        r matches Err(e) ==> e == (Error::Parse {
            ty: None,
            reason: if b@.len() < 4 {
                "parse INIT_COMPLETE header"
            } else if layout::word32(b@, 0) != 2 {
                "expected INIT_COMPLETE"
            } else {
                "parse INIT_COMPLETE body"
            },
        }),
{
    lemma_init_answer(b@);
    if b@.len() >= 4 {
        lemma_header_type(b@);
    }
}

proof fn lemma_init_answer(b: Seq<u8>)
    ensures
        netvsp::init_answer(b) is Ok <==> b.len() >= 16 && layout::word32(b, 0) == 2,
        netvsp::init_answer(b) matches Ok(yes) ==> yes == (layout::word32(b, 12) == 1),
{
    if b.len() >= 4 {
        lemma_header_type(b);
    }
    if b.len() >= 16 {
        decoding::law_nvsp_nvsp_msg_init_complete_decodes(b.subrange(4, 16));
        let m = wire::decoded::<NvspMsgInitComplete>(b.subrange(4, 16));
        layout::law_nvsp_nvsp_msg_init_complete_layout(m, b, 4);
    }
}

/// The host took a receive buffer of `size` bytes: type 102, status 1, one
/// section at offset 0, whose pieces hold a packet and fit the buffer.
pub open spec fn takes_recv_buffer(b: Seq<u8>, size: int) -> bool {
    &&& b.len() >= 28
    &&& layout::word32(b, 0) == 102
    &&& layout::word32(b, 4) == 1
    &&& layout::word32(b, 8) == 1
    &&& layout::word32(b, 12) == 0
    &&& layout::word32(b, 16) >= 68
    &&& layout::word32(b, 16) * layout::word32(b, 20) <= size
}

/// The host took a send buffer of `size` bytes: type 105, status 1, and
/// sections that hold a packet and are no larger than the buffer.
pub open spec fn takes_send_buffer(b: Seq<u8>, size: int) -> bool {
    &&& b.len() >= 12
    &&& layout::word32(b, 0) == 105
    &&& layout::word32(b, 4) == 1
    &&& layout::word32(b, 8) >= 68
    &&& layout::word32(b, 8) <= size
}

proof fn lemma_recv_buf_answer(b: Seq<u8>, size: int)
    ensures
        netvsp::recv_buf_answer(b, size) is Ok <==> takes_recv_buffer(b, size),
        netvsp::recv_buf_answer(b, size) matches Ok((section, count))
            ==> section == layout::word32(b, 16)
            && count == layout::word32(b, 20),
{
    if b.len() >= 4 {
        lemma_header_type(b);
    }
    if b.len() >= 28 {
        decoding::law_nvsp_nvsp1_msg_send_recv_buf_complete_decodes(b.subrange(4, 28));
        let m = wire::decoded::<Nvsp1MsgSendRecvBufComplete>(b.subrange(4, 28));
        layout::law_nvsp_nvsp1_msg_send_recv_buf_complete_layout(m, b, 4);
    }
}

proof fn lemma_send_buf_answer(b: Seq<u8>, size: u32)
    ensures
        netvsp::send_buf_answer(b, size as int) is Ok <==> takes_send_buffer(b, size as int),
        netvsp::send_buf_answer(b, size as int) matches Ok((section, count)) ==> {
            &&& section == layout::word32(b, 8)
            &&& section * count <= size
            &&& size < section * (count + 1)
        },
{
    if b.len() >= 4 {
        lemma_header_type(b);
    }
    if b.len() >= 12 {
        decoding::law_nvsp_nvsp1_msg_send_send_buf_complete_decodes(b.subrange(4, 12));
        let m = wire::decoded::<Nvsp1MsgSendSendBufComplete>(b.subrange(4, 12));
        layout::law_nvsp_nvsp1_msg_send_send_buf_complete_layout(m, b, 4);
        if netvsp::send_buf_answer(b, size as int) is Ok {
            let s = size as int;
            let d = m.section_size as int;
            vstd::arithmetic::div_mod::lemma_fundamental_div_mod(s, d);
            assert(s / d <= s) by (nonlinear_arith)
                requires
                    s >= 0,
                    d > 0,
            ;
            assert(0 <= s / d) by (nonlinear_arith)
                requires
                    s >= 0,
                    d > 0,
            ;
            let q = s / d;
            assert(d * (q + 1) == d * q + d) by (nonlinear_arith);
            assert(s % d < d);
        }
    }
}

/// Law: the answer about a receive buffer, and what it says of its sections.
pub proof fn law_recv_buffer_answered(b: &[u8], size: usize, r: Result<(u32, u32)>)
    requires
        call_ensures(parse_recv_buf_complete, (b, size), r),
    ensures
        r is Ok <==> takes_recv_buffer(b@, size as int),
        r matches Ok((section, count)) ==> section == layout::word32(b@, 16)
            && count == layout::word32(b@, 20),
        r matches Err(e) ==> e == (Error::Parse {
            ty: None,
            reason: if b@.len() < 4 {
                "parse SEND_RECV_BUF_COMPLETE header"
            } else if layout::word32(b@, 0) != 102 {
                "expected SEND_RECV_BUF_COMPLETE"
            } else if b@.len() < 28 {
                "parse SEND_RECV_BUF_COMPLETE body"
            } else if layout::word32(b@, 4) != 1 {
                "recv-buf complete non-success status"
            } else if layout::word32(b@, 8) != 1 {
                "recv-buf num_sections != 1"
            } else if layout::word32(b@, 12) != 0 {
                "recv-buf section offset != 0"
            } else if layout::word32(b@, 16) < 68 {
                "recv-buf sub_alloc_size < MTU_MIN"
            } else {
                "recv-buf sub_alloc_size * count > allocation"
            },
        }),
{
    lemma_recv_buf_answer(b@, size as int);
    if b@.len() >= 4 {
        lemma_header_type(b@);
    }
    if b@.len() >= 28 {
        decoding::law_nvsp_nvsp1_msg_send_recv_buf_complete_decodes(b@.subrange(4, 28));
        let m = wire::decoded::<Nvsp1MsgSendRecvBufComplete>(b@.subrange(4, 28));
        layout::law_nvsp_nvsp1_msg_send_recv_buf_complete_layout(m, b@, 4);
    }
}

/// Law: the answer about a send buffer; there are as many sections as fit,
/// and no more.
pub proof fn law_send_buffer_answered(b: &[u8], size: u32, r: Result<(u32, u32)>)
    requires
        call_ensures(parse_send_buf_complete, (b, size), r),
    ensures
        r is Ok <==> takes_send_buffer(b@, size as int),
        r matches Ok((section, count)) ==> {
            &&& section == layout::word32(b@, 8)
            &&& section * count <= size
            &&& size < section * (count + 1)
        },
        r matches Err(e) ==> e == (Error::Parse {
            ty: None,
            reason: if b@.len() < 4 {
                "parse SEND_SEND_BUF_COMPLETE header"
            } else if layout::word32(b@, 0) != 105 {
                "expected SEND_SEND_BUF_COMPLETE"
            } else if b@.len() < 12 {
                "parse SEND_SEND_BUF_COMPLETE body"
            } else if layout::word32(b@, 4) != 1 {
                "send-buf complete non-success status"
            } else if layout::word32(b@, 8) < 68 {
                "send-buf section_size < MTU_MIN"
            } else {
                "send-buf section_size larger than buffer"
            },
        }),
{
    lemma_send_buf_answer(b@, size);
    if b@.len() >= 4 {
        lemma_header_type(b@);
    }
    if b@.len() >= 12 {
        decoding::law_nvsp_nvsp1_msg_send_send_buf_complete_decodes(b@.subrange(4, 12));
        let m = wire::decoded::<Nvsp1MsgSendSendBufComplete>(b@.subrange(4, 12));
        layout::law_nvsp_nvsp1_msg_send_send_buf_complete_layout(m, b@, 4);
    }
}

/// Posting over a channel went like this: not at all on one that is not open;
/// otherwise the packet is written, and the host signalled once it stands in
/// the ring.
pub open spec fn posts<M: RingMem>(
    a: Link<M>,
    p: OutPacket,
    log: (Seq<HvEvent>, Seq<HvEvent>),
    b: Link<M>,
    r: Result<()>,
) -> bool {
    &&& b.channel == a.channel
    &&& b.recv == a.recv
    &&& a.channel.state != ChannelState::Open ==> {
        &&& r == Err::<(), Error>(Error::Rescinded)
        &&& b.send == a.send
        &&& log.1 == log.0
    }
    &&& a.channel.state == ChannelState::Open ==> {
        ||| r is Err && log.1 == log.0
        ||| {
            &&& log.1.len() == log.0.len() + 1
            &&& log.1.last() matches HvEvent::Call(c)
            &&& c.code == 0x5d
            &&& c.input.len() == 8
            &&& layout::word32(c.input, 0) == a.channel.connection_id
            &&& layout::word32(c.input, 4) == 0
            &&& r is Ok <==> c.reply is Ok
        }
    }
}

pub(crate) proof fn lemma_posts<M: RingMem>(
    a: Link<M>,
    p: OutPacket,
    log: (Seq<HvEvent>, Seq<HvEvent>),
    b: Link<M>,
    r: Result<()>,
)
    requires
        a.posted(p, log, b, r),
    ensures
        posts(a, p, log, b, r),
{
    if a.channel.state == ChannelState::Open && !(r is Err && log.1 == log.0) {
        let m = crate::hv::SignalEvent {
            connection_id: a.channel.connection_id,
            flag_number: 0,
            rsvd: 0,
        };
        m.lemma_wire_len();
        let input = log.1.last()->Call_0.input;
        assert(input.subrange(0, 8) =~= input);
        layout::law_hv_signal_event_layout(m, input, 0);
    }
}

/// Law: what posting over a channel does to the ring and asks of the
/// hypervisor. A packet that was written is signalled whether or not the
/// reader masked interrupts; one that was not is not.
pub proof fn law_posted_over<M: RingMem, C: HypercallTrait>(
    channel: &mut Link<M>,
    ctx: &mut HvCtx<C>,
    payload: &[u8],
    flags: PacketFlags,
    tid: u64,
    r: Result<()>,
)
    requires
        call_ensures(Link::<M>::post::<C>, (channel, ctx, payload, flags, tid), r),
        old(channel).wf(),
    ensures
        posts(
            *old(channel),
            link::inband(payload@, flags, tid),
            (old(ctx).log(), final(ctx).log()),
            *final(channel),
            r,
        ),
        keys::inband(link::inband(payload@, flags, tid), flags.0 as int, tid as int),
        link::inband(payload@, flags, tid).payload == payload@,
        old(channel).channel.state == ChannelState::Open && old(channel).send.exclusive()
            && rings::usual(old(channel).send.state()) ==> {
            let s = old(channel).send.state();
            let t = final(channel).send.state();
            let n = 24 + rings::up8(payload@.len() as int);
            exists|w: Result<bool>|
                {
                    &&& #[trigger] rings::writes(s, t, n, w)
                    &&& w is Ok ==> rings::is_packet(
                        rings::written(s, t, n),
                        s.words[0],
                        6,
                        Seq::<u8>::empty(),
                        payload@,
                        flags.0 as int,
                        tid as int,
                    )
                    &&& w is Ok <==> final(ctx).log().len() == old(ctx).log().len() + 1
                    &&& w matches Err(e) ==> r == Err::<(), Error>(e)
                }
        },
{
    let p = link::inband(payload@, flags, tid);
    let log = (old(ctx).log(), final(ctx).log());
    lemma_posts(*old(channel), p, log, *final(channel), r);
    if old(channel).channel.state == ChannelState::Open && old(channel).send.exclusive()
        && rings::usual(old(channel).send.state()) {
        let w = choose|w: Result<bool>| #[trigger]
            old(channel).send.wrote(p, final(channel).send, w) && match w {
                Err(e) => r == Err::<(), Error>(e) && log.1 == log.0,
                Ok(_) => old(channel).channel.signalled(log, r),
            };
        rings::lemma_writes(old(channel).send, p, final(channel).send, w);
        rings::lemma_sizes(p);
        if w is Ok {
            rings::lemma_packet(p, old(channel).send.state().words[0]);
        }
        assert(rings::writes(
            old(channel).send.state(),
            final(channel).send.state(),
            24 + rings::up8(payload@.len() as int),
            w,
        ));
    }
}

/// Law: of what a read of the ring gives, a completion (type 11) of the
/// transaction decides a wait for it, with its payload; a failure ends it; an
/// empty ring and every other packet are passed over.
pub proof fn law_completion_weighed(tid: u64, out: Result<InPacket>)
    ensures
        ({
            let v = netvsp::completion_verdict(tid, out);
            match out {
                Err(Error::RingEmpty) => v is None,
                Err(e) => v == Some(Err::<Seq<u8>, Error>(e)),
                Ok(p) => if p.descriptor.packet_type.0 == 11 && p.descriptor.transaction_id
                    == tid {
                    v == Some(Ok::<Seq<u8>, Error>(p.payload))
                } else {
                    v is None
                },
            }
        }),
{
}

/// The read gave the completion of transaction `tid`.
pub open spec fn completes(tid: u64, o: Result<InPacket>) -> bool {
    o is Ok && o->Ok_0.descriptor.packet_type.0 == 11 && o->Ok_0.descriptor.transaction_id == tid
}

/// Of the reads `outs`, no more than `limit` of them, the last gave the
/// completion of `tid`, whose payload is the reply, or failed; or there were
/// `limit` of them and none did, and the wait timed out.
pub open spec fn answers(
    tid: u64,
    limit: nat,
    outs: Seq<Result<InPacket>>,
    reply: Result<Seq<u8>>,
) -> bool {
    &&& outs.len() <= limit
    &&& forall|i: int|
        0 <= i < outs.len() - 1 ==> !completes(tid, #[trigger] outs[i]) && (outs[i] is Err ==> outs[i]
            == Err::<InPacket, Error>(Error::RingEmpty))
    &&& match reply {
        Ok(b) => outs.len() > 0 && completes(tid, outs.last()) && outs.last()->Ok_0.payload == b,
        Err(e) => {
            ||| {
                &&& outs.len() > 0
                &&& outs.last() == Err::<InPacket, Error>(e)
                &&& e != Error::RingEmpty
            }
            ||| {
                &&& e == Error::Timeout
                &&& outs.len() == limit
                &&& outs.len() > 0 ==> !completes(tid, outs.last())
            }
        },
    }
}

/// The host was asked with `frame`: as an inband packet that wants to be
/// completed, under the next transaction id, which is used up unless the
/// channel is gone; `reply` is what it answered within `limit` reads.
pub open spec fn asks<M: RingMem>(
    a: Netvsp<M>,
    frame: Seq<u8>,
    log: (Seq<HvEvent>, Seq<HvEvent>),
    b: Netvsp<M>,
    reply: Result<Seq<u8>>,
) -> bool {
    &&& b.version == a.version
    &&& b.recv_buf == a.recv_buf
    &&& b.send_buf == a.send_buf
    &&& a.link.channel.state != ChannelState::Open ==> {
        &&& reply == Err::<Seq<u8>, Error>(Error::Rescinded)
        &&& log.1 == log.0
        &&& b.next_transaction_id == a.next_transaction_id
    }
    &&& a.link.channel.state == ChannelState::Open ==> {
        &&& a.next_transaction_id < u64::MAX ==> b.next_transaction_id == a.next_transaction_id
            + 1
        &&& a.next_transaction_id == u64::MAX ==> b.next_transaction_id == 1
    }
    &&& exists|p: OutPacket, mid: Link<M>, sent: Result<()>|
        {
            &&& #[trigger] a.link.posted(p, log, mid, sent)
            &&& posts(a.link, p, log, mid, sent)
            &&& keys::inband(p, 1, a.next_transaction_id as int)
            &&& p.payload == frame
            &&& sent matches Err(e) ==> reply == Err::<Seq<u8>, Error>(e) && b.link == mid
            &&& sent is Ok ==> {
                &&& b.link.channel == mid.channel
                &&& b.link.send == mid.send
                &&& exists|outs: Seq<Result<InPacket>>| #[trigger]
                    mid.recv.read_run(520, outs, b.link.recv) && answers(
                        a.next_transaction_id,
                        100_000_000,
                        outs,
                        reply,
                    )
            }
        }
}

pub(crate) proof fn lemma_asks<M: RingMem>(
    a: Netvsp<M>,
    frame: Seq<u8>,
    limit: nat,
    log: (Seq<HvEvent>, Seq<HvEvent>),
    b: Netvsp<M>,
    reply: Result<Seq<u8>>,
)
    requires
        a.asked(frame, limit, log, b, reply),
        limit == 100_000_000,
    ensures
        asks(a, frame, log, b, reply),
{
    let tid = a.next_transaction_id;
    let p = link::inband(frame, PacketFlags(1), tid);
    let (mid, sent) = choose|mid: Link<M>, sent: Result<()>| #[trigger]
        a.link.posted(p, log, mid, sent) && match sent {
            Err(e) => b.link == mid && reply == Err::<Seq<u8>, Error>(e),
            Ok(_) => {
                &&& b.link.channel == mid.channel
                &&& b.link.send == mid.send
                &&& exists|outs: Seq<Result<InPacket>>| #[trigger]
                    mid.recv.read_run(netvsp::COMPLETION_BUFFER_SIZE as int, outs, b.link.recv)
                        && (link::stops(
                        outs,
                        |o| netvsp::completion_verdict(tid, o),
                        limit,
                        Some(reply),
                    ) || (reply == Err::<Seq<u8>, Error>(Error::Timeout) && link::stops(
                        outs,
                        |o| netvsp::completion_verdict(tid, o),
                        limit,
                        None,
                    )))
            },
        };
    lemma_posts(a.link, p, log, mid, sent);
    if sent is Ok {
        let outs = choose|outs: Seq<Result<InPacket>>| #[trigger]
            mid.recv.read_run(520, outs, b.link.recv) && (link::stops(
                outs,
                |o| netvsp::completion_verdict(tid, o),
                limit,
                Some(reply),
            ) || (reply == Err::<Seq<u8>, Error>(Error::Timeout) && link::stops(
                outs,
                |o| netvsp::completion_verdict(tid, o),
                limit,
                None,
            )));
        assert forall|i: int| 0 <= i < outs.len() - 1 implies !completes(
            tid,
            #[trigger] outs[i],
        ) && (outs[i] is Err ==> outs[i] == Err::<InPacket, Error>(Error::RingEmpty)) by {
            assert(netvsp::completion_verdict(tid, outs[i]) is None);
        }
        if outs.len() > 0 {
            let last = outs[outs.len() - 1];
            assert(outs.last() == last);
            if !link::stops(outs, |o| netvsp::completion_verdict(tid, o), limit, Some(reply)) {
                assert(netvsp::completion_verdict(tid, last) is None);
            }
        }
        assert(answers(tid, 100_000_000, outs, reply));
        assert(mid.recv.read_run(520, outs, b.link.recv));
    }
    assert(a.link.posted(p, log, mid, sent));
}

/// Law: a frame that the caller brings is posted as it is: with a completion
/// asked for, under a transaction id, or without both.
pub proof fn law_frame_sent<M: RingMem, C: HypercallTrait>(
    nic: &mut Netvsp<M>,
    ctx: &mut HvCtx<C>,
    frame: &[u8],
    completion: bool,
    r: Result<()>,
)
    requires
        call_ensures(Netvsp::<M>::send_nvsp_raw::<C>, (nic, ctx, frame, completion), r),
    ensures
        completion ==> exists|reply: Result<Seq<u8>>|
            #[trigger] asks(
                *old(nic),
                frame@,
                (old(ctx).log(), final(ctx).log()),
                *final(nic),
                reply,
            ) && (r is Ok <==> reply is Ok),
        !completion ==> {
            let p = link::inband(frame@, PacketFlags(0), 0);
            &&& keys::inband(p, 0, 0)
            &&& p.payload == frame@
            &&& posts(
                old(nic).link,
                p,
                (old(ctx).log(), final(ctx).log()),
                final(nic).link,
                r,
            )
            &&& final(nic).next_transaction_id == old(nic).next_transaction_id
            &&& final(nic).version == old(nic).version
        },
{
    let log = (old(ctx).log(), final(ctx).log());
    if completion {
        let reply = choose|reply: Result<Seq<u8>>| #[trigger]
            old(nic).asked(
                frame@,
                netvsp::DEFAULT_MAX_POLLS as nat,
                log,
                *final(nic),
                reply,
            ) && r == match reply {
                Ok(_) => Ok::<(), Error>(()),
                Err(e) => Err(e),
            };
        lemma_asks(
            *old(nic),
            frame@,
            netvsp::DEFAULT_MAX_POLLS as nat,
            log,
            *final(nic),
            reply,
        );
    } else {
        lemma_posts(
            old(nic).link,
            link::inband(frame@, PacketFlags(0), 0),
            log,
            final(nic).link,
            r,
        );
    }
}

/// The frame that asks for `version`: type 1, the version twice, and zeros,
/// 28 bytes whatever the version.
pub open spec fn asks_version(b: Seq<u8>, version: Version) -> bool {
    &&& b.len() == 28
    &&& layout::word32(b, 0) == 1
    &&& layout::word32(b, 4) == version.number()
    &&& layout::word32(b, 8) == version.number()
    &&& forall|i: int| 12 <= i < 28 ==> #[trigger] b[i] == 0
}

proof fn lemma_asks_version(version: Version)
    ensures
        asks_version(netvsp::init_frame(version), version),
{
    let m = NvspMsgInit {
        protocol_version: version.number(),
        protocol_version2: version.number(),
    };
    m.lemma_wire_len();
    lemma_frame(1, m.wire(), 28);
    let b = netvsp::init_frame(version);
    layout::law_nvsp_nvsp_msg_init_layout(m, b, 4);
}

/// Law: a step down the ladder asks the host for the first version on it. If
/// the host accepts, that is the version; a refusal or a timeout leads on to
/// the rest of the ladder; any other failure ends the walk. At the end of the
/// ladder there is no version.
pub proof fn law_ladder_step<M: RingMem>(
    nic: Netvsp<M>,
    ladder: Seq<Version>,
    log: (Seq<HvEvent>, Seq<HvEvent>),
    next: Netvsp<M>,
    r: Result<Version>,
)
    requires
        netvsp::ladder_walk(nic, ladder, log, next, r),
    ensures
        ladder.len() == 0 ==> r == Err::<Version, Error>(Error::VersionMismatch) && next == nic
            && log.1 == log.0,
        ladder.len() > 0 ==> exists|
            frame: Seq<u8>,
            mid: Netvsp<M>,
            mid_log: Seq<HvEvent>,
            reply: Result<Seq<u8>>,
        |
            {
                &&& #[trigger] asks(nic, frame, (log.0, mid_log), mid, reply)
                &&& asks_version(frame, ladder[0])
                &&& match reply {
                    Ok(b) => if b.len() >= 16 && layout::word32(b, 0) == 2 {
                        if layout::word32(b, 12) == 1 {
                            &&& r == Ok::<Version, Error>(ladder[0])
                            &&& next.version == ladder[0].number()
                            &&& log.1 == mid_log
                        } else {
                            netvsp::ladder_walk(
                                mid,
                                ladder.drop_first(),
                                (mid_log, log.1),
                                next,
                                r,
                            )
                        }
                    } else {
                        r is Err && log.1 == mid_log && next == mid
                    },
                    Err(Error::Timeout) => netvsp::ladder_walk(
                        mid,
                        ladder.drop_first(),
                        (mid_log, log.1),
                        next,
                        r,
                    ),
                    Err(e) => r == Err::<Version, Error>(e) && log.1 == mid_log && next == mid,
                }
            },
{
    if ladder.len() > 0 {
        let (mid, mid_log, t) = choose|
            mid: Netvsp<M>,
            mid_log: Seq<HvEvent>,
            t: Result<bool>,
        | #[trigger]
            netvsp::tried(nic, ladder[0], (log.0, mid_log), mid, t) && match t {
                Ok(true) => {
                    &&& log.1 == mid_log
                    &&& next == (Netvsp { version: ladder[0].number(), ..mid })
                    &&& r == Ok::<Version, Error>(ladder[0])
                },
                Ok(false) | Err(Error::Timeout) => netvsp::ladder_walk(
                    mid,
                    ladder.drop_first(),
                    (mid_log, log.1),
                    next,
                    r,
                ),
                Err(e) => {
                    &&& log.1 == mid_log
                    &&& next == mid
                    &&& r == Err::<Version, Error>(e)
                },
            };
        let frame = netvsp::init_frame(ladder[0]);
        let reply = choose|reply: Result<Seq<u8>>| #[trigger]
            nic.asked(
                frame,
                netvsp::DEFAULT_MAX_POLLS as nat,
                (log.0, mid_log),
                mid,
                reply,
            ) && t == netvsp::init_outcome(reply);
        lemma_asks(
            nic,
            frame,
            netvsp::DEFAULT_MAX_POLLS as nat,
            (log.0, mid_log),
            mid,
            reply,
        );
        lemma_asks_version(ladder[0]);
        if reply is Ok {
            lemma_init_answer(reply->Ok_0);
        }
        assert(asks(nic, frame, (log.0, mid_log), mid, reply));
    }
}

/// Law: the version that a walk agrees on is on the ladder, and the device
/// goes by its number from then on; a walk that fails changes no setting.
pub proof fn law_walk_ends<M: RingMem>(
    nic: Netvsp<M>,
    ladder: Seq<Version>,
    log: (Seq<HvEvent>, Seq<HvEvent>),
    next: Netvsp<M>,
    r: Result<Version>,
)
    requires
        netvsp::ladder_walk(nic, ladder, log, next, r),
    ensures
        r matches Ok(v) ==> ladder.contains(v) && next.version == v.number(),
        r is Err ==> next.version == nic.version,
        next.recv_buf == nic.recv_buf,
        next.send_buf == nic.send_buf,
    decreases ladder.len(),
{
    if ladder.len() > 0 {
        let (mid, mid_log, t) = choose|
            mid: Netvsp<M>,
            mid_log: Seq<HvEvent>,
            t: Result<bool>,
        | #[trigger]
            netvsp::tried(nic, ladder[0], (log.0, mid_log), mid, t) && match t {
                Ok(true) => {
                    &&& log.1 == mid_log
                    &&& next == (Netvsp { version: ladder[0].number(), ..mid })
                    &&& r == Ok::<Version, Error>(ladder[0])
                },
                Ok(false) | Err(Error::Timeout) => netvsp::ladder_walk(
                    mid,
                    ladder.drop_first(),
                    (mid_log, log.1),
                    next,
                    r,
                ),
                Err(e) => {
                    &&& log.1 == mid_log
                    &&& next == mid
                    &&& r == Err::<Version, Error>(e)
                },
            };
        assert(ladder.contains(ladder[0]));
        if t == Ok::<bool, Error>(false) || t == Err::<bool, Error>(Error::Timeout) {
            law_walk_ends(mid, ladder.drop_first(), (mid_log, log.1), next, r);
            if r is Ok {
                let v = r->Ok_0;
                let i = choose|i: int|
                    0 <= i < ladder.drop_first().len() && ladder.drop_first()[i] == v;
                assert(ladder[i + 1] == v);
            }
        }
    }
}

/// Law: negotiating walks the built-in ladder.
pub proof fn law_version_negotiated<M: RingMem, C: HypercallTrait>(
    nic: &mut Netvsp<M>,
    ctx: &mut HvCtx<C>,
    r: Result<Version>,
)
    requires
        call_ensures(Netvsp::<M>::negotiate_version::<C>, (nic, ctx), r),
    ensures
        netvsp::ladder_walk(
            *old(nic),
            netvsp::NEGOTIATION_LADDER@,
            (old(ctx).log(), final(ctx).log()),
            *final(nic),
            r,
        ),
        r matches Ok(v) ==> final(nic).version == v.number(),
        r is Err ==> final(nic).version == old(nic).version,
{
    law_walk_ends(
        *old(nic),
        netvsp::NEGOTIATION_LADDER@,
        (old(ctx).log(), final(ctx).log()),
        *final(nic),
        r,
    );
}

/// The frame size of a version, by its number.
pub open spec fn size_of_frames(version: u32) -> int {
    if version == 0x6_0001 {
        40
    } else {
        28
    }
}

/// A version was agreed on.
pub open spec fn agreed(version: u32) -> bool {
    ||| version == 2
    ||| version == 0x3_0002
    ||| version == 0x4_0000
    ||| version == 0x5_0000
    ||| version == 0x6_0000
    ||| version == 0x6_0001
}

/// Law: the configuration goes out, without asking for a completion, as a
/// frame of type 125 with the MTU, zeros and the capabilities; in version 1
/// there is none, and before a version is agreed on it fails.
pub proof fn law_config_sent<M: RingMem, C: HypercallTrait>(
    nic: &mut Netvsp<M>,
    ctx: &mut HvCtx<C>,
    mtu: u32,
    r: Result<()>,
)
    requires
        call_ensures(Netvsp::<M>::send_ndis_config::<C>, (nic, ctx, mtu), r),
    ensures
        !agreed(old(nic).version) ==> r == Err::<(), Error>(Error::VersionMismatch)
            && *final(nic) == *old(nic) && final(ctx).log()
            == old(ctx).log(),
        old(nic).version == 2 ==> r is Ok && *final(nic) == *old(nic)
            && final(ctx).log() == old(ctx).log(),
        agreed(old(nic).version) && old(nic).version != 2 ==> exists|p: OutPacket|
            {
                &&& #[trigger] posts(
                    old(nic).link,
                    p,
                    (old(ctx).log(), final(ctx).log()),
                    final(nic).link,
                    r,
                )
                &&& old(nic).link.posted(
                    p,
                    (old(ctx).log(), final(ctx).log()),
                    final(nic).link,
                    r,
                )
                &&& keys::inband(p, 0, 0)
                &&& p.payload.len() == size_of_frames(old(nic).version)
                &&& layout::word32(p.payload, 0) == 125
                &&& layout::word32(p.payload, 4) == mtu
                &&& layout::word32(p.payload, 8) == 0
                &&& layout::word64(p.payload, 12) == 8 + (if old(nic).version >= 0x5_0000 {
                    36int
                } else {
                    0
                }) + (if old(nic).version == 0x6_0001 {
                    128int
                } else {
                    0
                })
            },
{
    if agreed(old(nic).version) && old(nic).version != 2 {
        let v = netvsp::version_of(old(nic).version)->Ok_0;
        let m = Nvsp2MsgSendNdisConfig {
            mtu,
            reserved: 0,
            capabilities: NdisCapabilities::recommended_bits(v),
        };
        m.lemma_wire_len();
        lemma_frame(125, m.wire(), netvsp::frame_size(v));
        let b = netvsp::frame(125, m.wire(), netvsp::frame_size(v));
        layout::law_nvsp_nvsp2_msg_send_ndis_config_layout(m, b, 4);
        let p = link::inband(b, PacketFlags(0), 0);
        lemma_posts(
            old(nic).link,
            p,
            (old(ctx).log(), final(ctx).log()),
            final(nic).link,
            r,
        );
    }
}

/// Law: the NDIS version goes out the same way, as a frame of type 100: 6.1
/// up to version 4, and 6.30 from then on.
pub proof fn law_ndis_version_sent<M: RingMem, C: HypercallTrait>(
    nic: &mut Netvsp<M>,
    ctx: &mut HvCtx<C>,
    r: Result<()>,
)
    requires
        call_ensures(Netvsp::<M>::send_ndis_version::<C>, (nic, ctx), r),
    ensures
        !agreed(old(nic).version) ==> r == Err::<(), Error>(Error::VersionMismatch)
            && *final(nic) == *old(nic) && final(ctx).log()
            == old(ctx).log(),
        agreed(old(nic).version) ==> exists|p: OutPacket|
            {
                &&& #[trigger] posts(
                    old(nic).link,
                    p,
                    (old(ctx).log(), final(ctx).log()),
                    final(nic).link,
                    r,
                )
                &&& old(nic).link.posted(
                    p,
                    (old(ctx).log(), final(ctx).log()),
                    final(nic).link,
                    r,
                )
                &&& keys::inband(p, 0, 0)
                &&& p.payload.len() == size_of_frames(old(nic).version)
                &&& layout::word32(p.payload, 0) == 100
                &&& layout::word32(p.payload, 4) == 6
                &&& layout::word32(p.payload, 8) == (if old(nic).version <= 0x4_0000 {
                    1int
                } else {
                    30
                })
            },
{
    if agreed(old(nic).version) {
        let v = netvsp::version_of(old(nic).version)->Ok_0;
        let m = Nvsp1MsgSendNdisVersion {
            ndis_major_version: 6,
            ndis_minor_version: if v.number() <= Version::V4.number() {
                1
            } else {
                30
            },
        };
        m.lemma_wire_len();
        lemma_frame(100, m.wire(), netvsp::frame_size(v));
        let b = netvsp::frame(100, m.wire(), netvsp::frame_size(v));
        layout::law_nvsp_nvsp1_msg_send_ndis_version_layout(m, b, 4);
        let p = link::inband(b, PacketFlags(0), 0);
        lemma_posts(
            old(nic).link,
            p,
            (old(ctx).log(), final(ctx).log()),
            final(nic).link,
            r,
        );
    }
}

/// The frame hands the region `gpadl` over: as the receive buffer, type 101
/// with id `0xcafe`, or as the send buffer, type 104 with id 0.
pub open spec fn hands_over(b: Seq<u8>, receive: bool, gpadl: GpadlId, version: u32) -> bool {
    &&& b.len() == size_of_frames(version)
    &&& layout::word32(b, 0) == (if receive {
        101int
    } else {
        104
    })
    &&& layout::word32(b, 4) == gpadl.0
    &&& layout::word16(b, 8) == (if receive {
        0xcafeint
    } else {
        0
    })
    &&& forall|i: int| 10 <= i < b.len() ==> #[trigger] b[i] == 0
}

proof fn lemma_hands_over(receive: bool, gpadl: GpadlHandle, v: Version)
    ensures
        hands_over(
            netvsp::handover_frame(receive, gpadl, v),
            receive,
            gpadl.gpadl_id,
            v.number(),
        ),
{
    let id: u16 = if receive {
        0xcafe
    } else {
        0
    };
    let ty: u32 = if receive {
        101
    } else {
        104
    };
    let m = Nvsp1MsgSendBuffer { gpadl_handle: gpadl.gpadl_id.0, id, pad: 0 };
    m.lemma_wire_len();
    lemma_frame(ty, m.wire(), netvsp::frame_size(v));
    let b = netvsp::handover_frame(receive, gpadl, v);
    layout::law_nvsp_nvsp1_msg_send_buffer_layout(m, b, 4);
    assert(layout::word16(b, 10) == 0);
    assert(b[10] == 0 && b[11] == 0);
}

/// Establishing a buffer of `size` bytes at `base_gpa` went like this. One
/// that is there already is kept. The buffer is made of whole pages; they are
/// made known to the host one after the other, the region is handed over, and
/// the host's answer decides what the device remembers.
pub open spec fn establishes<M: RingMem, H: ConnectResultHandler>(
    a: Netvsp<M>,
    receive: bool,
    state: (VmbusState<H>, VmbusState<H>),
    log: (Seq<HvEvent>, Seq<HvEvent>),
    size: usize,
    base_gpa: Option<u64>,
    b: Netvsp<M>,
    r: Result<()>,
    i: int,
) -> bool {
    &&& b.version == a.version
    &&& b.link.channel == a.link.channel
    &&& (if receive {
        a.recv_buf is Some
    } else {
        a.send_buf is Some
    }) || size == 0 || size % 4096 != 0 || base_gpa is None ==> {
        &&& b == a
        &&& log.1 == log.0
        &&& state.1 == state.0
        &&& r == Err::<(), Error>(
            Error::Parse {
                ty: None,
                reason: if receive && a.recv_buf is Some {
                    "recv buffer already established"
                } else if !receive && a.send_buf is Some {
                    "send buffer already established"
                } else if size == 0 || size % 4096 != 0 {
                    "GPADL buffer size must be a positive multiple of 4096"
                } else if size > isize::MAX - 4095 {
                    "GPADL buffer layout invalid"
                } else {
                    "GPADL buffer allocation failed"
                },
            },
        )
    }
    &&& r is Err ==> b.recv_buf == a.recv_buf && b.send_buf == a.send_buf && b.recv_section_size
        == a.recv_section_size && b.send_section_size == a.send_section_size
    &&& r is Ok ==> exists|
        gpadl: GpadlHandle,
        mid_log: Seq<HvEvent>,
        frame: Seq<u8>,
        mid: Netvsp<M>,
        answer: Seq<u8>,
    |
        {
            let buf = if receive {
                b.recv_buf
            } else {
                b.send_buf
            };
            &&& #[trigger] gpadl::made(
                state,
                (log.0, mid_log),
                a.link.channel.channel_id,
                netvsp::low32(size),
                netvsp::page_frames(base_gpa->0, (size / 4096) as nat),
                Ok(gpadl),
            )
            &&& netvsp::low32(size) == size as int % 0x1_0000_0000
            &&& base_gpa->0 + size <= u64::MAX ==> consecutive(
                netvsp::page_frames(base_gpa->0, (size / 4096) as nat),
                base_gpa->0,
                size as int / 4096,
            )
            &&& size <= 0x1_0000_0000 - 4096 && 8 + 8 * (size / 4096) <= u16::MAX
                ==> regions::makes(
                state.0.connection->0.post_message_connection_id,
                gpadl,
                size as u32,
                netvsp::page_frames(base_gpa->0, (size / 4096) as nat),
                (log.0, mid_log),
                Ok(gpadl),
                i,
            )
            &&& #[trigger] asks(a, frame, (mid_log, log.1), mid, Ok(answer))
            &&& hands_over(frame, receive, gpadl.gpadl_id, a.version)
            &&& agreed(a.version)
            &&& buf == Some(OwnedBuf { base_gpa: base_gpa->0, len: size, gpadl })
            &&& if receive {
                &&& takes_recv_buffer(answer, size as int)
                &&& b.recv_section_size == layout::word32(answer, 16)
                &&& b.recv_section_count == layout::word32(answer, 20)
                &&& b.send_buf == a.send_buf
                &&& b.send_section_size == a.send_section_size
                &&& b.send_section_count == a.send_section_count
            } else {
                &&& takes_send_buffer(answer, netvsp::low32(size) as int)
                &&& b.send_section_size == layout::word32(answer, 8)
                &&& b.send_section_size * b.send_section_count <= netvsp::low32(size)
                &&& netvsp::low32(size) < b.send_section_size * (b.send_section_count + 1)
                &&& b.recv_buf == a.recv_buf
                &&& b.recv_section_size == a.recv_section_size
                &&& b.recv_section_count == a.recv_section_count
            }
        }
}

pub(crate) proof fn lemma_establishes<M: RingMem, H: ConnectResultHandler>(
    a: Netvsp<M>,
    receive: bool,
    state: (VmbusState<H>, VmbusState<H>),
    log: (Seq<HvEvent>, Seq<HvEvent>),
    size: usize,
    base_gpa: Option<u64>,
    b: Netvsp<M>,
    r: Result<()>,
    i: int,
)
    requires
        netvsp::buffer_established(a, receive, state, log, size, base_gpa, b, r),
    ensures
        establishes(a, receive, state, log, size, base_gpa, b, r, i),
{
    let kept = if receive {
        a.recv_buf is Some
    } else {
        a.send_buf is Some
    };
    if !kept {
        let (mid_log, made) = choose|mid_log: Seq<HvEvent>, made: Result<OwnedBuf>| #[trigger]
            netvsp::buffer_made(
                (state.0, state.1),
                (log.0, mid_log),
                a.link.channel.channel_id,
                size,
                base_gpa,
                made,
            ) && netvsp::buffer_settled(a, receive, (mid_log, log.1), made, b, r);
        if made is Ok {
            let buf = made->Ok_0;
            let (mid, answer) = choose|mid: Netvsp<M>, answer: Result<(u32, u32)>| #[trigger]
                netvsp::buffer_handed(a, receive, buf, (mid_log, log.1), mid, answer)
                    && match answer {
                    Err(e) => r == Err::<(), Error>(e) && b == mid,
                    Ok(sections) => {
                        &&& r == Ok::<(), Error>(())
                        &&& b == mid.with_buffer(receive, buf, sections)
                    },
                };
            if netvsp::version_of(a.version) is Ok {
                let v = netvsp::version_of(a.version)->Ok_0;
                let frame = netvsp::handover_frame(receive, buf.gpadl, v);
                let reply = choose|reply: Result<Seq<u8>>| #[trigger]
                    a.asked(
                        frame,
                        netvsp::DEFAULT_MAX_POLLS as nat,
                        (mid_log, log.1),
                        mid,
                        reply,
                    ) && answer == netvsp::sections_outcome(receive, buf.len, reply);
                lemma_asks(
                    a,
                    frame,
                    netvsp::DEFAULT_MAX_POLLS as nat,
                    (mid_log, log.1),
                    mid,
                    reply,
                );
                if answer is Ok {
                    let bytes = reply->Ok_0;
                    lemma_hands_over(receive, buf.gpadl, v);
                    lemma_recv_buf_answer(bytes, size as int);
                    lemma_send_buf_answer(bytes, netvsp::low32(size));
                    assert(reply == Ok::<Seq<u8>, Error>(bytes));
                    assert(asks(a, frame, (mid_log, log.1), mid, Ok(bytes)));
                    let pages = netvsp::page_frames(base_gpa->0, (size / 4096) as nat);
                    let g: Result<GpadlHandle> = Ok(buf.gpadl);
                    assert(gpadl::made(
                        state,
                        (log.0, mid_log),
                        a.link.channel.channel_id,
                        netvsp::low32(size),
                        pages,
                        g,
                    ));
                    if base_gpa->0 + size <= u64::MAX {
                        assert(4096 * (size / 4096) == size);
                        lemma_consecutive(base_gpa->0, (size / 4096) as nat);
                    }
                    if size <= 0x1_0000_0000 - 4096 && 8 + 8 * (size / 4096) <= u16::MAX {
                        assert(netvsp::low32(size) == size as u32);
                        regions::lemma_makes(
                            state.0.connection->0.post_message_connection_id,
                            GpadlHandle {
                                channel_id: a.link.channel.channel_id,
                                gpadl_id: GpadlId(state.0.gpadl_ids.next),
                            },
                            netvsp::low32(size),
                            pages,
                            (state.0.table@, state.1.table@),
                            (log.0, mid_log),
                            g,
                            i,
                        );
                    }
                }
            }
        }
    }
}

/// Law: establishing the receive buffer.
pub proof fn law_recv_buffer_established<M: RingMem, C: HypercallTrait, H: ConnectResultHandler>(
    nic: &mut Netvsp<M>,
    ctx: &mut HvCtx<C>,
    state: &mut VmbusState<H>,
    size: usize,
    base_gpa: Option<u64>,
    r: Result<()>,
    i: int,
)
    requires
        call_ensures(
            Netvsp::<M>::establish_recv_buffer::<C, H>,
            (nic, ctx, state, size, base_gpa),
            r,
        ),
    ensures
        establishes(
            *old(nic),
            true,
            (*old(state), *final(state)),
            (old(ctx).log(), final(ctx).log()),
            size,
            base_gpa,
            *final(nic),
            r,
            i,
        ),
{
    lemma_establishes(
        *old(nic),
        true,
        (*old(state), *final(state)),
        (old(ctx).log(), final(ctx).log()),
        size,
        base_gpa,
        *final(nic),
        r,
        i,
    );
}

/// Law: establishing the send buffer.
pub proof fn law_send_buffer_established<M: RingMem, C: HypercallTrait, H: ConnectResultHandler>(
    nic: &mut Netvsp<M>,
    ctx: &mut HvCtx<C>,
    state: &mut VmbusState<H>,
    size: usize,
    base_gpa: Option<u64>,
    r: Result<()>,
    i: int,
)
    requires
        call_ensures(
            Netvsp::<M>::establish_send_buffer::<C, H>,
            (nic, ctx, state, size, base_gpa),
            r,
        ),
    ensures
        establishes(
            *old(nic),
            false,
            (*old(state), *final(state)),
            (old(ctx).log(), final(ctx).log()),
            size,
            base_gpa,
            *final(nic),
            r,
            i,
        ),
{
    lemma_establishes(
        *old(nic),
        false,
        (*old(state), *final(state)),
        (old(ctx).log(), final(ctx).log()),
        size,
        base_gpa,
        *final(nic),
        r,
        i,
    );
}

/// Law: opening the device makes its ring region, 18 pages one after the
/// other from its address on, known to the host, and then opens the channel
/// over it with the second ring at page 9, the connection id of the offer and
/// an event flag made of the lower half of the channel id. The device starts
/// without a version, with transaction 1 and without buffers.
pub proof fn law_device_opened<M: RingMem, C: HypercallTrait, H: ConnectResultHandler>(
    ctx: &mut HvCtx<C>,
    state: &mut VmbusState<H>,
    offer: &OfferChannel,
    region: Option<RingRegion<M>>,
    r: Result<Netvsp<M>>,
    i: int,
)
    requires
        call_ensures(Netvsp::<M>::open::<C, H>, (ctx, state, offer, region), r),
        region matches Some(g) ==> g.base_gpa + 73728 <= u64::MAX,
    ensures
        region is None ==> r == Err::<Netvsp<M>, Error>(
            Error::Parse { ty: None, reason: "netvsp ring allocation failed" },
        ) && final(ctx).log() == old(ctx).log() && *final(state) == *old(state),
        region is Some ==> consecutive(
            netvsp::page_frames(region->0.base_gpa, 18),
            region->0.base_gpa,
            18,
        ),
        r matches Ok(nic) ==> {
            &&& nic.version == 0xffff_ffff
            &&& nic.next_transaction_id == 1
            &&& nic.recv_buf is None
            &&& nic.send_buf is None
            &&& nic.recv_section_size == 0
            &&& nic.send_section_size == 0
            &&& exists|mid_log: Seq<HvEvent>, ring: GpadlHandle|
                {
                    &&& regions::makes(
                        old(state).connection->0.post_message_connection_id,
                        ring,
                        73728,
                        netvsp::page_frames(region->0.base_gpa, 18),
                        (old(ctx).log(), mid_log),
                        Ok(ring),
                        i,
                    )
                    &&& #[trigger] channels::opens(
                        old(state).connection->0,
                        old(state).open_ids.next,
                        offer.channel_id,
                        ring,
                        8,
                        offer.connection_id,
                        (offer.channel_id.0 % 0x1_0000) as u16,
                        (mid_log, final(ctx).log()),
                        Ok(nic.link.channel),
                    )
                }
        },
{
    if region is Some {
        let g = region->0;
        lemma_consecutive(g.base_gpa, 18);
        if r is Ok {
            let nic = r->Ok_0;
            let pages = netvsp::page_frames(g.base_gpa, 18);
            let (mid, mid_log, ring) = choose|
                mid: VmbusState<H>,
                mid_log: Seq<HvEvent>,
                ring: Result<GpadlHandle>,
            | #[trigger]
                gpadl::made(
                    (*old(state), mid),
                    (old(ctx).log(), mid_log),
                    offer.channel_id,
                    73728,
                    pages,
                    ring,
                ) && netvsp::opened_after(
                    (mid, *final(state)),
                    (mid_log, final(ctx).log()),
                    *offer,
                    g,
                    ring,
                    r,
                );
            let handle = ring->Ok_0;
            let flag = (offer.channel_id.0 % 0x1_0000) as u16;
            let answer: Result<Channel> = Ok(nic.link.channel);
            let to = old(state).connection->0.post_message_connection_id;
            regions::lemma_makes(
                to,
                GpadlHandle {
                    channel_id: offer.channel_id,
                    gpadl_id: GpadlId(old(state).gpadl_ids.next),
                },
                73728,
                pages,
                (old(state).table@, mid.table@),
                (old(ctx).log(), mid_log),
                ring,
                i,
            );
            assert(regions::makes(
                to,
                handle,
                73728,
                pages,
                (old(ctx).log(), mid_log),
                Ok(handle),
                i,
            ));
            channels::lemma_opens(
                (mid, *final(state)),
                (mid_log, final(ctx).log()),
                offer.channel_id,
                handle,
                8,
                offer.connection_id,
                flag,
                answer,
            );
            assert(channels::opens(
                old(state).connection->0,
                old(state).open_ids.next,
                offer.channel_id,
                handle,
                8,
                offer.connection_id,
                flag,
                (mid_log, final(ctx).log()),
                answer,
            ));
        }
    }
}

} // verus!
