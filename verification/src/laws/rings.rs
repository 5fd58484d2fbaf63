//! Rings: where a packet stands, what a write and a read do to the control
//! words, and when the other side is to be signalled.
//!
//! Control word 0 is where the writer writes next, 1 where the reader reads
//! next, 2 the interrupt mask, 3 the bytes that a blocked writer waits for,
//! and 16 the feature bits. The laws on a ring's contents are of memory that
//! no peer changes.
use crate::error::Error;
use crate::error::Result;
use crate::laws::decoding;
use crate::laws::layout;
use crate::packet;
use crate::packet::Footer;
use crate::packet::InPacket;
use crate::packet::OutPacket;
use crate::packet::ReadSeen;
use crate::packet::WriteSeen;
use crate::protocol::GpaDirectHeader;
use crate::protocol::GpaRange;
use crate::protocol::PacketFlags;
use crate::protocol::PacketType;
use crate::ring;
use crate::ring::align8;
use crate::ring::available_data;
use crate::ring::available_free;
use crate::ring::signal_on_crossing;
use crate::ring::FlatRingMem;
use crate::ring::OwnedRingMem;
use crate::ring::RecvPacket;
use crate::ring::RecvRing;
use crate::ring::RingMem;
use crate::ring::SendRing;
use crate::ring::SignalDecision;
use crate::ring_model;
use crate::ring_model::Access;
use crate::ring_model::RingState;
use crate::wire;
use crate::wire::Wire;
use vstd::prelude::*;

verus! {

/// Law: rounding up gives the next multiple of 8.
pub proof fn law_align8(n: usize, r: usize)
    requires
        call_ensures(align8, (n,), r),
    ensures
        r % 8 == 0,
        n <= r < n + 8,
{
}

/// Law: going round from the reader by the readable bytes leads to the
/// writer; and readable bytes, free bytes and the eight that stay reserved
/// make up the whole ring.
pub proof fn law_room(w: u32, r: u32, len: u32, data: Option<u32>, free: Option<u32>)
    requires
        call_ensures(available_data, (w, r, len), data),
        call_ensures(available_free, (w, r, len), free),
        w < len,
        r < len,
    ensures
        data matches Some(d) && d < len && (r + d == w || r + d == w + len),
        free matches Some(f) ==> data->0 + f + 8 == len,
        free is None ==> data->0 + 8 > len,
{
}

/// Law: the same of indices that need not be within the ring: a writer ahead
/// of the reader has written the bytes between them, and otherwise the ring
/// less those; what does not come out at zero or more is nothing.
pub proof fn law_room_anywhere(w: u32, r: u32, len: u32, data: Option<u32>, free: Option<u32>)
    requires
        call_ensures(available_data, (w, r, len), data),
        call_ensures(available_free, (w, r, len), free),
    ensures
        w >= r ==> data == Some((w - r) as u32),
        w >= r ==> match free {
            Some(f) => f + 8 + (w - r) == len,
            None => 8 + (w - r) > len,
        },
        w < r ==> match data {
            Some(d) => d + (r - w) == len,
            None => r - w > len,
        },
        w < r ==> match free {
            Some(f) => f + 8 == r - w,
            None => r - w < 8,
        },
{
}

/// `n` rounded up to a multiple of 8.
pub open spec fn up8(n: int) -> int {
    if n % 8 == 0 {
        n
    } else {
        n - n % 8 + 8
    }
}

/// The bytes of a packet that starts at index `w`: a descriptor of 16 bytes
/// (type, offset of the payload and length in units of 8 bytes, flags,
/// transaction id), the extended header and the payload, each filled up with
/// zeros to a multiple of 8, and a footer that repeats `w`.
pub open spec fn is_packet(
    b: Seq<u8>,
    w: u32,
    ty: int,
    ext: Seq<u8>,
    payload: Seq<u8>,
    flags: int,
    tid: int,
) -> bool {
    let e = 16 + up8(ext.len() as int);
    let n = e + up8(payload.len() as int);
    &&& b.len() == n + 8
    &&& layout::word16(b, 0) == ty
    &&& 8 * layout::word16(b, 2) == e
    &&& 8 * layout::word16(b, 4) == n
    &&& layout::word16(b, 6) == flags
    &&& layout::word64(b, 8) == tid
    &&& is_body(b, w, ext, payload)
}

/// What follows the descriptor.
pub open spec fn is_body(b: Seq<u8>, w: u32, ext: Seq<u8>, payload: Seq<u8>) -> bool {
    let e = 16 + up8(ext.len() as int);
    let n = e + up8(payload.len() as int);
    &&& forall|i: int|
        16 <= i < e ==> #[trigger] b[i] == (if i - 16 < ext.len() {
            ext[i - 16]
        } else {
            0
        })
    &&& forall|i: int|
        e <= i < n ==> #[trigger] b[i] == (if i - e < payload.len() {
            payload[i - e]
        } else {
            0
        })
    &&& layout::word32(b, n) == 0
    &&& layout::word32(b, n + 4) == w
}

pub(crate) proof fn lemma_sizes(p: OutPacket)
    ensures
        p.data_offset() == 16 + up8(p.ext_header.len() as int),
        p.msg_len() == 16 + up8(p.ext_header.len() as int) + up8(p.payload.len() as int),
        p.total() == 24 + up8(p.ext_header.len() as int) + up8(p.payload.len() as int),
        packet::padded(p.ext_header).len() == up8(p.ext_header.len() as int),
        packet::padded(p.payload).len() == up8(p.payload.len() as int),
{
    packet::lemma_padded(p.ext_header);
    packet::lemma_padded(p.payload);
}

pub(crate) proof fn lemma_packet(p: OutPacket, w: u32)
    requires
        p.shaped(),
        !p.too_large(),
    ensures
        p.bytes(w).len() == p.total(),
        is_body(p.bytes(w), w, p.ext_header, p.payload),
        p.verbatim matches Some(d) ==> p.bytes(w).take(16) == d,
        p.verbatim is None ==> is_packet(
            p.bytes(w),
            w,
            p.packet_type.0 as int,
            p.ext_header,
            p.payload,
            p.flags.0 as int,
            p.transaction_id as int,
        ),
{
    lemma_sizes(p);
    p.lemma_bytes(w);
    let b = p.bytes(w);
    let head = p.head();
    let footer = Footer { reserved: 0, offset: w };
    footer.lemma_wire_len();
    p.descriptor().lemma_wire_len();
    let e = 16 + up8(p.ext_header.len() as int);
    let n = e + up8(p.payload.len() as int);
    assert(head.len() == 16);
    assert forall|i: int| 16 <= i < e implies #[trigger] b[i] == (if i - 16
        < p.ext_header.len() {
        p.ext_header[i - 16]
    } else {
        0
    }) by {
        assert(b[i] == p.body()[i - 16]);
        assert(b[i] == packet::padded(p.ext_header)[i - 16]);
    }
    assert forall|i: int| e <= i < n implies #[trigger] b[i] == (if i - e < p.payload.len() {
        p.payload[i - e]
    } else {
        0
    }) by {
        assert(b[i] == p.body()[i - 16]);
        assert(b[i] == packet::padded(p.payload)[i - e]);
    }
    assert(b.subrange(n, n + 8) =~= footer.wire());
    layout::law_packet_footer_layout(footer, b, n);
    assert(b.take(16) =~= head);
    if p.verbatim is None {
        assert(b.subrange(0, 16) =~= p.descriptor().wire());
        layout::law_packet_descriptor_layout(p.descriptor(), b, 0);
    }
}

/// A write of a packet of `n` bytes went from `s` to `t` and came to `r`:
/// where there is room beside the eight reserved bytes, the packet stands at
/// the writer's index, the index moves on by its length, and the reader is to
/// be signalled exactly if it had read everything and did not mask
/// interrupts; where there is none, the reader is told how many bytes are
/// needed.
pub open spec fn writes(s: RingState, t: RingState, n: int, r: Result<bool>) -> bool {
    let len = s.data.len() as int;
    let w = s.words[0] as int;
    let o = s.words[1] as int;
    let used = if w >= o {
        w - o
    } else {
        w + len - o
    };
    if n - 8 > 0x7fff8 {
        &&& r == Err::<bool, Error>(Error::Parse { ty: None, reason: "packet too large" })
        &&& t == s
    } else if used + n + 8 <= len {
        &&& r == Ok::<bool, Error>(used == 0 && s.words[2] == 0)
        &&& t.data.len() == len
        &&& t.words == s.words.update(0, ((w + n) % len) as u32)
        &&& forall|k: int|
            n <= k < len ==> t.data[#[trigger] ((w + k) % len)] == s.data[(w + k) % len]
    } else {
        &&& r == Err::<bool, Error>(Error::RingFull)
        &&& t.words == s.words.update(3, n as u32)
        &&& t.data == s.data
    }
}

/// The bytes that were written, if any were.
pub open spec fn written(s: RingState, t: RingState, n: int) -> Seq<u8> {
    Seq::new(n as nat, |i: int| t.data[(s.words[0] + i) % (s.data.len() as int)])
}

/// The indices are within the ring and stand at units of 8 bytes.
pub open spec fn usual(s: RingState) -> bool {
    &&& s.wf()
    &&& s.words[0] < s.data.len()
    &&& s.words[1] < s.data.len()
    &&& s.words[0] % 8 == 0
    &&& s.words[1] % 8 == 0
}

pub(crate) proof fn lemma_writes<M: RingMem>(
    ring: SendRing<M>,
    p: OutPacket,
    next: SendRing<M>,
    r: Result<bool>,
)
    requires
        ring.wf(),
        ring.exclusive(),
        usual(ring.state()),
        p.shaped(),
        ring.wrote(p, next, r),
    ensures
        writes(ring.state(), next.state(), p.total(), r),
        r is Ok ==> written(ring.state(), next.state(), p.total()) == p.bytes(
            ring.state().words[0],
        ),
{
    let s = ring.state();
    let len = s.len();
    let w = s.words[0];
    let seen = WriteSeen::of(s);
    let t = next.state();
    lemma_sizes(p);
    p.lemma_bytes(w);
    ring_model::lemma_len_mod8(len);
    assert(t == s.apply_all(p.write_accesses(len, seen)));
    if p.too_large() {
        assert(p.write_accesses(len, seen) =~= Seq::<Access>::empty());
    } else if p.fits(w, s.words[1], len) {
        packet::lemma_write_effect(s, p);
        s.lemma_write_shape(w as int, p.bytes(w));
        let d = s.write(w as int, p.bytes(w));
        assert forall|k: int| 0 <= k < len implies t.data[#[trigger] ((w + k) % len)] == (if k
            < p.total() {
            p.bytes(w)[k]
        } else {
            s.data[(w + k) % len]
        }) by {
            s.lemma_write_data(w as int, p.bytes(w), k);
        }
        assert(written(s, t, p.total()) =~= p.bytes(w));
        assert(t.words =~= s.words.update(0, ((w + p.total()) % len) as u32));
    } else {
        let e = p.entry(seen);
        let h = p.hint(seen);
        let a0 = Seq::<Access>::empty();
        let a1 = a0.push(e[0]);
        let a2 = a1.push(e[1]);
        let a3 = a2.push(h[0]);
        let a4 = a3.push(h[1]);
        s.lemma_apply_push(a0, e[0]);
        s.lemma_apply_push(a1, e[1]);
        s.lemma_apply_push(a2, h[0]);
        s.lemma_apply_push(a3, h[1]);
        assert(p.write_accesses(len, seen) =~= a4);
    }
}

/// Law: a packet of any type is written whole, with its extended header in
/// front of its payload.
pub proof fn law_packet_written<M: RingMem>(
    ring: &mut SendRing<M>,
    packet_type: PacketType,
    ext_header: &[u8],
    payload: &[u8],
    flags: PacketFlags,
    transaction_id: u64,
    r: Result<bool>,
)
    requires
        old(ring).wf(),
        old(ring).exclusive(),
        usual(old(ring).state()),
        call_ensures(
            SendRing::<M>::write_packet,
            (ring, packet_type, ext_header, payload, flags, transaction_id),
            r,
        ),
    ensures
        ({
            let n = 24 + up8(ext_header@.len() as int) + up8(payload@.len() as int);
            let s = old(ring).state();
            let t = final(ring).state();
            &&& writes(s, t, n, r)
            &&& r is Ok ==> is_packet(
                written(s, t, n),
                s.words[0],
                packet_type.0 as int,
                ext_header@,
                payload@,
                flags.0 as int,
                transaction_id as int,
            )
        }),
{
    let p = OutPacket {
        packet_type,
        ext_header: ext_header@,
        payload: payload@,
        flags,
        transaction_id,
        verbatim: None,
    };
    lemma_sizes(p);
    lemma_writes(*old(ring), p, *final(ring), r);
    if r is Ok {
        lemma_packet(p, old(ring).state().words[0]);
    }
}

/// Law: an inband packet is of type 6 and has no extended header.
pub proof fn law_inband_written<M: RingMem>(
    ring: &mut SendRing<M>,
    payload: &[u8],
    flags: PacketFlags,
    transaction_id: u64,
    r: Result<bool>,
)
    requires
        old(ring).wf(),
        old(ring).exclusive(),
        usual(old(ring).state()),
        call_ensures(SendRing::<M>::write_inband, (ring, payload, flags, transaction_id), r),
    ensures
        ({
            let n = 24 + up8(payload@.len() as int);
            let s = old(ring).state();
            let t = final(ring).state();
            &&& writes(s, t, n, r)
            &&& r is Ok ==> is_packet(
                written(s, t, n),
                s.words[0],
                6,
                Seq::<u8>::empty(),
                payload@,
                flags.0 as int,
                transaction_id as int,
            )
        }),
{
    let p = OutPacket {
        packet_type: PacketType(PacketType::VM_PKT_DATA_INBAND),
        ext_header: Seq::empty(),
        payload: payload@,
        flags,
        transaction_id,
        verbatim: None,
    };
    lemma_sizes(p);
    lemma_writes(*old(ring), p, *final(ring), r);
    if r is Ok {
        lemma_packet(p, old(ring).state().words[0]);
    }
}

/// Law: a completion is of type 11, without flags, and has the transaction id
/// of what it completes.
pub proof fn law_completion_written<M: RingMem>(
    ring: &mut SendRing<M>,
    payload: &[u8],
    transaction_id: u64,
    r: Result<bool>,
)
    requires
        old(ring).wf(),
        old(ring).exclusive(),
        usual(old(ring).state()),
        call_ensures(SendRing::<M>::write_completion, (ring, payload, transaction_id), r),
    ensures
        ({
            let n = 24 + up8(payload@.len() as int);
            let s = old(ring).state();
            let t = final(ring).state();
            &&& writes(s, t, n, r)
            &&& r is Ok ==> is_packet(
                written(s, t, n),
                s.words[0],
                11,
                Seq::<u8>::empty(),
                payload@,
                0,
                transaction_id as int,
            )
        }),
{
    let p = OutPacket {
        packet_type: PacketType(PacketType::VM_PKT_COMP),
        ext_header: Seq::empty(),
        payload: payload@,
        flags: PacketFlags(0),
        transaction_id,
        verbatim: None,
    };
    lemma_sizes(p);
    lemma_writes(*old(ring), p, *final(ring), r);
    if r is Ok {
        lemma_packet(p, old(ring).state().words[0]);
    }
}

/// The extended header of a packet that refers to pages: a zero word, one
/// range, its length and the offset in its first page, and the page numbers.
pub open spec fn is_direct_header(
    b: Seq<u8>,
    pfns: Seq<u64>,
    byte_offset: u32,
    byte_count: u32,
) -> bool {
    &&& b.len() == 16 + 8 * pfns.len()
    &&& layout::word32(b, 0) == 0
    &&& layout::word32(b, 4) == 1
    &&& layout::word32(b, 8) == byte_count
    &&& layout::word32(b, 12) == byte_offset
    &&& forall|i: int| 0 <= i < pfns.len() ==> layout::word64(b, 16 + 8 * i) == #[trigger] pfns[i]
}

proof fn lemma_direct_header(pfns: Seq<u64>, byte_offset: u32, byte_count: u32)
    ensures
        is_direct_header(
            ring::gpa_direct_header(pfns, byte_offset, byte_count),
            pfns,
            byte_offset,
            byte_count,
        ),
{
    let h = GpaDirectHeader { reserved: 0, range_count: 1 };
    let g = GpaRange { byte_count, byte_offset };
    h.lemma_wire_len();
    g.lemma_wire_len();
    wire::lemma_u64s_len(pfns);
    let b = ring::gpa_direct_header(pfns, byte_offset, byte_count);
    assert(b.subrange(0, 8) =~= h.wire());
    assert(b.subrange(8, 16) =~= g.wire());
    layout::law_gpa_direct_header_layout(h, b, 0);
    layout::law_gpa_range_layout(g, b, 8);
    assert forall|i: int| 0 <= i < pfns.len() implies layout::word64(b, 16 + 8 * i)
        == #[trigger] pfns[i] by {
        wire::lemma_u64s_index(pfns, i);
        assert(b.subrange(16 + 8 * i, 16 + 8 * i + 8) =~= wire::u64s(pfns).subrange(
            8 * i,
            8 * i + 8,
        ));
        layout::law_word64(pfns[i], b, 16 + 8 * i);
    }
}

/// Law: a packet that refers to pages is of type 9 and lists them in its
/// extended header. It is refused, and nothing written, without pages, with
/// more than 32, and where offset and length do not lie within them.
pub proof fn law_direct_written<M: RingMem>(
    ring: &mut SendRing<M>,
    pfns: &[u64],
    byte_offset: u32,
    byte_count: u32,
    payload: &[u8],
    flags: PacketFlags,
    transaction_id: u64,
    r: Result<bool>,
) -> (ext: Seq<u8>)
    requires
        old(ring).wf(),
        old(ring).exclusive(),
        usual(old(ring).state()),
        call_ensures(
            SendRing::<M>::write_gpa_direct,
            (ring, pfns, byte_offset, byte_count, payload, flags, transaction_id),
            r,
        ),
    ensures
        is_direct_header(ext, pfns@, byte_offset, byte_count),
        if pfns@.len() == 0 || pfns@.len() > 32 || byte_offset >= 4096 * pfns@.len()
            || byte_offset + byte_count > 4096 * pfns@.len() {
            &&& *final(ring) == *old(ring)
            &&& r is Err
            &&& r->Err_0 is Parse
            &&& r->Err_0->ty is None
            &&& r->Err_0->reason == (if pfns@.len() == 0 {
                "write_gpa_direct requires >= 1 PFN"
            } else if byte_offset >= 4096 * pfns@.len() {
                "write_gpa_direct byte_offset exceeds PFN range"
            } else if byte_offset + byte_count > 4096 * pfns@.len() {
                "write_gpa_direct byte_count exceeds PFN range"
            } else {
                "write_gpa_direct pfn list too long for stack buffer"
            })
        } else {
            let n = 24 + up8(ext.len() as int) + up8(payload@.len() as int);
            let s = old(ring).state();
            let t = final(ring).state();
            &&& writes(s, t, n, r)
            &&& r is Ok ==> is_packet(
                written(s, t, n),
                s.words[0],
                9,
                ext,
                payload@,
                flags.0 as int,
                transaction_id as int,
            )
        },
{
    let ext = ring::gpa_direct_header(pfns@, byte_offset, byte_count);
    lemma_direct_header(pfns@, byte_offset, byte_count);
    let p = OutPacket {
        packet_type: PacketType(PacketType::VM_PKT_DATA_USING_GPA_DIRECT),
        ext_header: ext,
        payload: payload@,
        flags,
        transaction_id,
        verbatim: None,
    };
    if ring::gpa_direct_error(pfns@.len() as int, byte_offset, byte_count) is None {
        lemma_sizes(p);
        lemma_writes(*old(ring), p, *final(ring), r);
        if r is Ok {
            lemma_packet(p, old(ring).state().words[0]);
        }
    }
    ext
}

/// Law: a descriptor that the caller brings stands in front as it is; the
/// payload, the footer and the indices do not depend on it.
pub proof fn law_raw_written<M: RingMem>(
    ring: &mut SendRing<M>,
    descriptor: &[u8; 16],
    payload: &[u8],
    r: Result<bool>,
)
    requires
        old(ring).wf(),
        old(ring).exclusive(),
        usual(old(ring).state()),
        call_ensures(SendRing::<M>::write_raw_packet, (ring, descriptor, payload), r),
    ensures
        ({
            let n = 24 + up8(payload@.len() as int);
            let s = old(ring).state();
            let t = final(ring).state();
            &&& writes(s, t, n, r)
            &&& r is Ok ==> {
                &&& written(s, t, n).take(16) == descriptor@
                &&& is_body(written(s, t, n), s.words[0], Seq::<u8>::empty(), payload@)
            }
        }),
{
    let p = packet::raw_packet(descriptor@, payload@);
    lemma_sizes(p);
    lemma_writes(*old(ring), p, *final(ring), r);
    if r is Ok {
        lemma_packet(p, old(ring).state().words[0]);
    }
}

/// Law: a read of an empty ring says so; otherwise it takes the packet at the
/// reader's index, whose descriptor says where its payload starts and how
/// long it is, gives the payload out and moves the index behind the footer. A
/// buffer that is too small, or a descriptor that makes no sense, leaves the
/// packet where it is.
pub proof fn law_packet_read<'a, M: RingMem>(
    ring: &mut RecvRing<M>,
    buf: &'a mut [u8],
    r: Result<RecvPacket<'a>>,
) -> (h: Seq<u8>)
    requires
        old(ring).wf(),
        old(ring).exclusive(),
        usual(old(ring).state()),
        call_ensures(RecvRing::<M>::read, (ring, buf), r),
    ensures
        h.len() == 16,
        ({
            let s = old(ring).state();
            let t = final(ring).state();
            let len = s.data.len() as int;
            let w = s.words[0];
            let o = s.words[1];
            let first = 8 * layout::word16(h, 2);
            let end = 8 * layout::word16(h, 4);
            let data = if w >= o {
                w - o
            } else {
                w + len - o
            };
            &&& forall|i: int| 0 <= i < 16 ==> #[trigger] h[i] == s.data[(o + i) % len]
            &&& match r {
                Err(e) => {
                    &&& t == s
                    &&& e == Error::RingEmpty <==> w == o
                    &&& w == o || end < first || first < 16 || end + 8 > data
                        || old(buf)@.len() < end - 8
                },
                Ok(p) => {
                    &&& w != o
                    &&& 16 <= first <= end
                    &&& end + 8 <= data
                    &&& end - 8 <= old(buf)@.len()
                    &&& p.descriptor.packet_type.0 == layout::word16(h, 0)
                    &&& p.descriptor.flags.0 == layout::word16(h, 6)
                    &&& p.descriptor.transaction_id == layout::word64(h, 8)
                    &&& p.ext_header_len == first - 16
                    &&& p.payload@.len() == end - first
                    &&& forall|i: int|
                        0 <= i < end - first ==> #[trigger] p.payload@[i] == s.data[(o + first
                            + i) % len]
                    &&& forall|i: int|
                        0 <= i < first - 16 ==> #[trigger] final(buf)@[i] == s.data[(o + 16
                            + i) % len]
                    &&& t.words == s.words.update(1, ((o + end + 8) % len) as u32)
                    &&& t.data == s.data
                },
            }
        }),
{
    let s = old(ring).state();
    let t = final(ring).state();
    let len = s.len();
    let o = s.words[1];
    let n = old(buf)@.len() as int;
    let seen = ReadSeen::of(s);
    let h = seen.head;
    decoding::law_packet_descriptor_decodes(h);
    assert(h.subrange(0, 16) =~= h);
    layout::law_packet_descriptor_layout(seen.descriptor(), h, 0);
    let a = seen.read_accesses(len, n);
    assert(t == s.apply_all(a));
    let a0 = Seq::<Access>::empty();
    let a1 = a0.push(a[0]);
    let a2 = a1.push(a[1]);
    s.lemma_apply_push(a0, a[0]);
    s.lemma_apply_push(a1, a[1]);
    if s.words[0] == o {
        assert(a =~= a2);
    } else {
        let a3 = a2.push(a[2]);
        s.lemma_apply_push(a2, a[2]);
        if !seen.takes(len, n) {
            assert(a =~= a3);
        } else {
            let a4 = a3.push(a[3]);
            let a5 = a4.push(a[4]);
            s.lemma_apply_push(a3, a[3]);
            s.lemma_apply_push(a4, a[4]);
            assert(a =~= a5);
            let first = seen.data_offset();
            let end = seen.msg_len();
            let q = InPacket {
                descriptor: seen.descriptor(),
                ext_header: seen.body.take(first - 16),
                payload: seen.body.skip(first - 16),
            };
            let p = r->Ok_0;
            assert(p.payload@ == q.payload);
            assert(final(buf)@.take(p.ext_header_len as int) == q.ext_header);
            assert(q.ext_header.len() == first - 16);
            assert forall|i: int| 0 <= i < end - first implies #[trigger] p.payload@[i]
                == s.data[(o + first + i) % len] by {
                assert(q.payload[i] == seen.body[first - 16 + i]);
                assert(seen.body[first - 16 + i] == s.data[(o + 16 + (first - 16 + i)) % len]);
                assert(o + 16 + (first - 16 + i) == o + first + i);
            }
            assert forall|i: int| 0 <= i < first - 16 implies #[trigger] final(buf)@[i]
                == s.data[(o + 16 + i) % len] by {
                assert(q.ext_header[i] == seen.body[i]);
                assert(final(buf)@.take(p.ext_header_len as int)[i] == final(buf)@[i]);
            }
        }
    }
    h
}

/// Law: a new half for sending advertises the feature in word 16 and clears
/// word 3; a new half for receiving changes nothing.
pub proof fn law_halves_made<M: RingMem>(
    a: M,
    b: M,
    send: SendRing<M>,
    recv: RecvRing<M>,
)
    requires
        a.exclusive(),
        call_ensures(SendRing::<M>::new, (a,), send),
        call_ensures(RecvRing::<M>::new, (b,), recv),
    ensures
        send.state().words == a.state().words.update(16, 1).update(3, 0),
        send.state().data == a.state().data,
        recv.state() == b.state(),
{
}

/// Law: the interrupt mask is word 2, and what a blocked writer waits for is
/// word 3; nothing else changes.
pub proof fn law_words_set<M: RingMem>(
    a: &mut RecvRing<M>,
    masked: bool,
    b: &mut RecvRing<M>,
    c: &mut SendRing<M>,
    size: u32,
)
    requires
        old(a).exclusive(),
        old(b).exclusive(),
        old(c).exclusive(),
        call_ensures(RecvRing::<M>::set_interrupt_mask, (a, masked), ()),
        call_ensures(RecvRing::<M>::set_pending_send_size, (b, size), ()),
        call_ensures(SendRing::<M>::set_pending_send_size, (c, size), ()),
    ensures
        final(a).state().words == old(a).state().words.update(
            2,
            if masked {
                1
            } else {
                0
            },
        ),
        final(a).state().data == old(a).state().data,
        final(b).state().words == old(b).state().words.update(3, size),
        final(b).state().data == old(b).state().data,
        final(c).state().words == old(c).state().words.update(3, size),
        final(c).state().data == old(c).state().data,
{
    let e = Seq::<Access>::empty();
    let m = Access::Store {
        word: 2,
        value: if masked {
            1
        } else {
            0
        },
    };
    let k = Access::Store { word: 3, value: size };
    old(a).state().lemma_apply_push(e, m);
    old(b).state().lemma_apply_push(e, k);
    old(c).state().lemma_apply_push(e, k);
    assert(e.push(m) =~= seq![m]);
    assert(e.push(k) =~= seq![k]);
}

/// Law: the lowest bit of word 16 says whether the writer waits, word 3 how
/// much for, and the readable bytes lead from word 1 to word 0.
pub proof fn law_words_read<M: RingMem>(ring: RecvRing<M>, a: bool, b: u32, c: u32)
    requires
        ring.wf(),
        ring.exclusive(),
        usual(ring.state()),
        call_ensures(RecvRing::<M>::supports_pending_send_size, (&ring,), a),
        call_ensures(RecvRing::<M>::pending_send_size, (&ring,), b),
        call_ensures(RecvRing::<M>::available, (&ring,), c),
    ensures
        a == (ring.state().words[16] % 2 == 1),
        b == ring.state().words[3],
        c < ring.state().data.len(),
        ring.state().words[1] + c == ring.state().words[0] || ring.state().words[1] + c
            == ring.state().words[0] + ring.state().data.len(),
{
    let bits = ring.state().words[16];
    assert((bits & 0x1 != 0) == (bits % 2 == 1)) by (bit_vector);
}

/// Law: a blocked writer is signalled exactly by the drain that makes room
/// for it: there is room now, and before the drain there was not.
pub proof fn law_crossing(pending: u32, new_free: u32, bytes_read: u32, r: SignalDecision)
    requires
        call_ensures(signal_on_crossing, (pending, new_free, bytes_read), r),
    ensures
        r == SignalDecision::Signal <==> new_free >= pending && pending > 0 && new_free
            < pending + bytes_read,
{
}

/// Law: after a drain the writer is signalled exactly if it supports waiting,
/// waits for some bytes, has that many now, and did not have them before.
pub proof fn law_drain_signal<M: RingMem>(ring: RecvRing<M>, bytes_read: u32, r: SignalDecision)
    requires
        ring.wf(),
        ring.exclusive(),
        usual(ring.state()),
        call_ensures(RecvRing::<M>::drain_signal_decision, (&ring, bytes_read), r),
    ensures
        ({
            let s = ring.state();
            let w = s.words[0];
            let o = s.words[1];
            let free = if w >= o {
                s.data.len() - (w - o) - 8
            } else {
                o - w - 8
            };
            r == SignalDecision::Signal <==> {
                &&& s.words[16] % 2 == 1
                &&& s.words[3] > 0
                &&& free >= s.words[3]
                &&& free < s.words[3] + bytes_read
            }
        }),
{
    let bits = ring.state().words[16];
    assert((bits & 0x1 == 0) == (bits % 2 == 0)) by (bit_vector);
    ring_model::lemma_len_mod8(ring.state().len());
}

/// Law: new memory is all zero: 17 control words, and a data area of the size
/// asked for, in bytes or in pages of 4096 bytes.
pub proof fn law_memory_made(bytes: usize, a: FlatRingMem, pages: usize, b: OwnedRingMem)
    requires
        call_ensures(FlatRingMem::new, (bytes,), a),
        call_ensures(OwnedRingMem::new, (pages,), b),
    ensures
        a.state().words.len() == 17,
        a.state().data.len() == bytes,
        b.state().words.len() == 17,
        b.state().data.len() == pages * 4096,
        forall|i: int| 0 <= i < 17 ==> #[trigger] a.state().words[i] == 0,
        forall|i: int| 0 <= i < 17 ==> #[trigger] b.state().words[i] == 0,
        forall|i: int| 0 <= i < bytes ==> #[trigger] a.state().data[i] == 0,
        forall|i: int| 0 <= i < pages * 4096 ==> #[trigger] b.state().data[i] == 0,
{
}

/// Law: data that is written at an offset, going on at the start where the
/// area ends, stands there, and nothing else changes; read at the same
/// offset, it comes back.
pub proof fn law_memory_wraps(s: RingState, off: int, bytes: Seq<u8>, k: int)
    requires
        0 < s.data.len(),
        bytes.len() <= s.data.len(),
        0 <= k < s.data.len(),
        0 <= off,
    ensures
        s.write(off, bytes).words == s.words,
        s.write(off, bytes).data.len() == s.data.len(),
        s.write(off, bytes).data[(off + k) % (s.data.len() as int)] == (if k < bytes.len() {
            bytes[k]
        } else {
            s.data[(off + k) % (s.data.len() as int)]
        }),
        s.bytes_at(off, bytes.len() as int).len() == bytes.len(),
        k < bytes.len() ==> s.bytes_at(off, bytes.len() as int)[k] == s.data[(off + k) % (
        s.data.len() as int)],
{
    s.lemma_write_shape(off, bytes);
    s.lemma_write_data(off, bytes, k);
}

/// What a writer does to a ring that the reader shares, step by step: it looks
/// at both indices; where it sees too little room it says how much it needs
/// and looks at the reader's index again, and takes that back if there is
/// room now; it writes the packet, and only then moves its index; and last it
/// looks at the reader's index and mask, which say whether to signal.
pub open spec fn write_steps(acc: Seq<Access>, n: int, len: int, r: Result<bool>) -> bool {
    let w = acc[0]->Load_value;
    let waited = acc.len() >= 4 && acc[2] is Store;
    let k = if waited {
        5int
    } else {
        2
    };
    &&& acc.len() >= 2 ==> acc[0] is Load && acc[0]->Load_word == 0 && acc[1] is Load
        && acc[1]->Load_word == 1
    &&& waited ==> {
        &&& acc[2] == (Access::Store { word: 3, value: n as u32 })
        &&& acc[3] is Load
        &&& acc[3]->Load_word == 1
    }
    &&& match r {
        Ok(wake) => {
            &&& acc.len() == k + 4
            &&& waited ==> acc[4] == (Access::Store { word: 3, value: 0 })
            &&& acc[k] is Write
            &&& acc[k]->Write_off == w
            &&& acc[k]->Write_bytes.len() == n
            &&& acc[k + 1] == (Access::Store { word: 0, value: ((w + n) % len) as u32 })
            &&& acc[k + 2] is Load
            &&& acc[k + 2]->Load_word == 1
            &&& acc[k + 3] is Load
            &&& acc[k + 3]->Load_word == 2
            &&& wake <==> acc[k + 2]->Load_value == w && acc[k + 3]->Load_value == 0
        },
        Err(_) => {
            &&& acc.len() == 0 || acc.len() == 2 || acc.len() == 4
            &&& acc.len() == 4 ==> waited
            &&& r == Err::<bool, Error>(Error::RingFull) ==> acc.len() == 4
        },
    }
}

/// Law: the steps of a write, whatever the reader does meanwhile.
pub proof fn law_write_traced<M: RingMem>(
    ring: &mut SendRing<M>,
    packet_type: PacketType,
    ext_header: &[u8],
    payload: &[u8],
    flags: PacketFlags,
    transaction_id: u64,
    r: Result<bool>,
)
    requires
        old(ring).wf(),
        call_ensures(
            SendRing::<M>::write_packet,
            (ring, packet_type, ext_header, payload, flags, transaction_id),
            r,
        ),
    ensures
        old(ring).trace().is_prefix_of(final(ring).trace()),
        write_steps(
            final(ring).trace().skip(old(ring).trace().len() as int),
            24 + up8(ext_header@.len() as int) + up8(payload@.len() as int),
            old(ring).state().data.len() as int,
            r,
        ),
        r is Ok ==> {
            let acc = final(ring).trace().skip(old(ring).trace().len() as int);
            is_packet(
                acc[acc.len() - 4]->Write_bytes,
                acc[0]->Load_value,
                packet_type.0 as int,
                ext_header@,
                payload@,
                flags.0 as int,
                transaction_id as int,
            )
        },
{
    let p = OutPacket {
        packet_type,
        ext_header: ext_header@,
        payload: payload@,
        flags,
        transaction_id,
        verbatim: None,
    };
    let len = old(ring).state().len();
    lemma_sizes(p);
    let seen = choose|seen: WriteSeen|
        {
            &&& #[trigger] old(ring).did(p.write_accesses(len, seen), *final(ring))
            &&& r == p.write_result(len, seen)
            &&& old(ring).exclusive() ==> seen == WriteSeen::of(old(ring).state())
        };
    p.lemma_bytes(seen.write_idx);
    if r is Ok {
        lemma_packet(p, seen.write_idx);
    }
    assert(final(ring).trace().skip(old(ring).trace().len() as int) =~= p.write_accesses(
        len,
        seen,
    ));
}

/// What a reader does to a ring that the writer shares, step by step: it looks
/// at both indices, and goes no further if they are equal; it reads the 16
/// bytes of the descriptor; and where it takes the packet it reads the rest
/// of it and only then moves its index behind the footer.
pub open spec fn read_steps(acc: Seq<Access>, len: int, taken: bool, empty: bool) -> bool {
    let o = acc[1]->Load_value;
    &&& acc.len() >= 2
    &&& acc[0] is Load
    &&& acc[0]->Load_word == 0
    &&& acc[1] is Load
    &&& acc[1]->Load_word == 1
    &&& empty <==> acc[0]->Load_value == o
    &&& empty ==> acc.len() == 2
    &&& !empty ==> {
        let h = acc[2]->Read_bytes;
        let end = 8 * layout::word16(h, 4);
        &&& acc[2] is Read
        &&& acc[2]->Read_off == o
        &&& h.len() == 16
        &&& !taken ==> acc.len() == 3
        &&& taken ==> {
            &&& acc.len() == 5
            &&& acc[3] is Read
            &&& acc[3]->Read_off == o + 16
            &&& acc[3]->Read_bytes.len() == end - 16
            &&& acc[4] == (Access::Store { word: 1, value: ((o + end + 8) % len) as u32 })
        }
    }
}

/// Law: the steps of a read, whatever the writer does meanwhile.
pub proof fn law_read_traced<'a, M: RingMem>(
    ring: &mut RecvRing<M>,
    buf: &'a mut [u8],
    r: Result<RecvPacket<'a>>,
)
    requires
        old(ring).wf(),
        call_ensures(RecvRing::<M>::read, (ring, buf), r),
    ensures
        old(ring).trace().is_prefix_of(final(ring).trace()),
        read_steps(
            final(ring).trace().skip(old(ring).trace().len() as int),
            old(ring).state().data.len() as int,
            r is Ok,
            r is Err && r->Err_0 == Error::RingEmpty,
        ),
        ({
            let acc = final(ring).trace().skip(old(ring).trace().len() as int);
            let len = old(ring).state().data.len() as int;
            let w = acc[0]->Load_value;
            let o = acc[1]->Load_value;
            let h = acc[2]->Read_bytes;
            let first = 8 * layout::word16(h, 2);
            let end = 8 * layout::word16(h, 4);
            let data = if w >= o {
                w - o
            } else {
                w + len - o
            };
            &&& r matches Ok(p) ==> {
                &&& 16 <= first <= end
                &&& end + 8 <= data
                &&& p.descriptor.packet_type.0 == layout::word16(h, 0)
                &&& p.descriptor.flags.0 == layout::word16(h, 6)
                &&& p.descriptor.transaction_id == layout::word64(h, 8)
                &&& p.ext_header_len == first - 16
                &&& p.payload@ == acc[3]->Read_bytes.skip(first - 16)
                &&& final(buf)@.take(first - 16) == acc[3]->Read_bytes.take(first - 16)
            }
            &&& w != o && r is Err ==> {
                let bad = first < 16 || end < first || end + 8 > data || o + end + 8 > u32::MAX;
                &&& bad || old(buf)@.len() < end - 8
                &&& r->Err_0 is Parse
                &&& r->Err_0->ty is None
                &&& r->Err_0->reason == (if bad {
                    "descriptor length out of range"
                } else {
                    "recv buffer smaller than packet payload"
                })
            }
        }),
{
    let len = old(ring).state().len();
    let n = old(buf)@.len() as int;
    let out: Result<InPacket> = match r {
        Ok(pkt) => Ok(
            InPacket {
                descriptor: pkt.descriptor,
                ext_header: final(buf)@.take(pkt.ext_header_len as int),
                payload: pkt.payload@,
            },
        ),
        Err(e) => Err(e),
    };
    assert(old(ring).read_as(n, *final(ring), out));
    let seen = choose|seen: ReadSeen|
        {
            &&& #[trigger] old(ring).did(seen.read_accesses(len, n), *final(ring))
            &&& seen.shaped(len, n)
            &&& out == seen.read_result(len, n)
        };
    let h = seen.head;
    decoding::law_packet_descriptor_decodes(h);
    assert(h.subrange(0, 16) =~= h);
    layout::law_packet_descriptor_layout(seen.descriptor(), h, 0);
    assert(final(ring).trace().skip(old(ring).trace().len() as int) =~= seen.read_accesses(len, n));
    if r is Ok {
        let pkt = r->Ok_0;
        assert(final(buf)@.take(pkt.ext_header_len as int).len() == pkt.ext_header_len);
        assert(seen.body.take(seen.data_offset() - 16).len() == seen.data_offset() - 16);
    }
}

} // verus!
