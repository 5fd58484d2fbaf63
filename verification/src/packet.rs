//! Packets in a ring: their bytes, the accesses that move them, and the
//! queue they form.
use crate::error::Error;
use crate::error::Result;
use crate::protocol::PacketDescriptor;
use crate::protocol::PacketFlags;
use crate::protocol::PacketType;
use crate::ring_model;
use crate::ring_model::Access;
use crate::ring_model::RingState;
use crate::ring_model::IDX_IN;
use crate::ring_model::IDX_INTERRUPT_MASK;
use crate::ring_model::IDX_OUT;
use crate::ring_model::IDX_PENDING_SEND_SZ;
use crate::wire;
use crate::wire::Wire;
use vstd::prelude::*;

verus! {

/// Closes every packet.
#[derive(Copy, Clone, Debug, PartialEq, Eq)]
pub struct Footer {
    pub reserved: u32,
    /// Ring offset of the packet this footer closes.
    pub offset: u32,
}

impl Wire for Footer {
    open spec fn wire(&self) -> Seq<u8> {
        self.reserved.wire() + self.offset.wire()
    }

    open spec fn wire_len() -> nat {
        8
    }

    proof fn lemma_wire_len(&self) {
        self.reserved.lemma_wire_len();
        self.offset.lemma_wire_len();
    }

    proof fn lemma_injective(&self, other: &Self) {
        self.reserved.lemma_wire_len();
        other.reserved.lemma_wire_len();
        self.offset.lemma_wire_len();
        other.offset.lemma_wire_len();
        let b = self.wire();
        assert(self.reserved.wire() =~= b.subrange(0, 4));
        assert(other.reserved.wire() =~= b.subrange(0, 4));
        self.reserved.lemma_injective(&other.reserved);
        assert(self.offset.wire() =~= b.subrange(4, 8));
        assert(other.offset.wire() =~= b.subrange(4, 8));
        self.offset.lemma_injective(&other.offset);
    }

    fn wire_size() -> (n: usize) {
        8
    }

    fn write_to(&self, out: &mut Vec<u8>) {
        self.reserved.write_to(out);
        self.offset.write_to(out);
        proof {
            assert(out@ =~= old(out)@ + self.wire());
        }
    }

    fn read_at(bytes: &[u8], off: usize) -> (r: Self) {
        proof {
            wire::lemma_slice_len(bytes);
        }
        let r = Footer {
            reserved: u32::read_at(bytes, off),
            offset: u32::read_at(bytes, off + 4),
        };
        proof {
            r.lemma_wire_len();
            r.reserved.lemma_wire_len();
            r.offset.lemma_wire_len();
            assert(r.wire() =~= bytes@.subrange(off as int, off + 8));
        }
        r
    }
}

/// `s` filled up with zero bytes to a multiple of 8.
pub open spec fn padded(s: Seq<u8>) -> Seq<u8> {
    s + wire::zeros((ring_model::align8_spec(s.len() as int) - s.len()) as nat)
}

/// The length of a padded piece.
pub proof fn lemma_padded(s: Seq<u8>)
    ensures
        padded(s).len() == ring_model::align8_spec(s.len() as int),
        padded(s).len() % 8 == 0,
        s.len() <= padded(s).len() < s.len() + 8,
        padded(s).take(s.len() as int) == s,
{
    assert(padded(s).take(s.len() as int) =~= s);
}

/// A packet made of aligned pieces is aligned throughout.
proof fn lemma_aligned_sum(ext_header: int, payload: int)
    requires
        0 <= ext_header,
        0 <= payload,
    ensures
        ring_model::align8_spec(ext_header) >= 0,
        ring_model::align8_spec(payload) >= 0,
        (16 + ring_model::align8_spec(ext_header)) % 8 == 0,
        (16 + ring_model::align8_spec(ext_header) + ring_model::align8_spec(payload)) % 8 == 0,
{
}

// ---------------------------------------------------------------------------
// Writing
// ---------------------------------------------------------------------------
/// What a writer is asked to send.
#[verifier::ext_equal]
pub struct OutPacket {
    pub packet_type: PacketType,
    pub ext_header: Seq<u8>,
    pub payload: Seq<u8>,
    pub flags: PacketFlags,
    pub transaction_id: u64,
    /// The bytes to put in the descriptor's place, where the caller
    /// brings its own.
    pub verbatim: Option<Seq<u8>>,
}

/// The values of control words that a write saw, in the order it read
/// them.
pub struct WriteSeen {
    /// The writer's own index.
    pub write_idx: u32,
    /// The reader's index on entry.
    pub read_idx: u32,
    /// The reader's index once the pending-size hint was out.
    pub read_idx_reload: u32,
    /// The reader's index after the new writer's index was published.
    pub read_idx_after: u32,
    /// The interrupt mask.
    pub interrupt_mask: u32,
}

impl WriteSeen {
    /// What a write sees where nobody interferes.
    pub open spec fn of(s: RingState) -> WriteSeen {
        WriteSeen {
            write_idx: s.write_idx(),
            read_idx: s.read_idx(),
            read_idx_reload: s.read_idx(),
            read_idx_after: s.read_idx(),
            interrupt_mask: s.words[IDX_INTERRUPT_MASK as int],
        }
    }
}

impl OutPacket {
    /// Offset from the start of the packet to the payload.
    pub open spec fn data_offset(self) -> int {
        16 + ring_model::align8_spec(self.ext_header.len() as int)
    }

    /// Length of the packet without its footer.
    pub open spec fn msg_len(self) -> int {
        self.data_offset() + ring_model::align8_spec(self.payload.len() as int)
    }

    /// Bytes of ring the packet takes up.
    pub open spec fn total(self) -> int {
        self.msg_len() + 8
    }

    /// The length does not fit in the descriptor.
    pub open spec fn too_large(self) -> bool {
        self.msg_len() > 0xffff * 8
    }

    /// The descriptor that leads the packet.
    pub open spec fn descriptor(self) -> PacketDescriptor {
        PacketDescriptor {
            packet_type: self.packet_type,
            data_offset8: (self.data_offset() / 8) as u16,
            length8: (self.msg_len() / 8) as u16,
            flags: self.flags,
            transaction_id: self.transaction_id,
        }
    }

    /// Extended header and payload, each padded.
    pub open spec fn body(self) -> Seq<u8> {
        padded(self.ext_header) + padded(self.payload)
    }

    /// A descriptor that the caller brings has the size of one.
    pub open spec fn shaped(self) -> bool {
        self.verbatim matches Some(d) ==> d.len() == 16
    }

    /// The bytes that lead the packet.
    pub open spec fn head(self) -> Seq<u8> {
        match self.verbatim {
            Some(d) => d,
            None => self.descriptor().wire(),
        }
    }

    /// The packet as it stands in the ring when it starts at index `w`.
    pub open spec fn bytes(self, w: u32) -> Seq<u8> {
        self.head() + self.body() + (Footer { reserved: 0, offset: w }).wire()
    }

    /// The packet takes up the bytes it says it does.
    pub proof fn lemma_bytes(self, w: u32)
        requires
            self.shaped(),
        ensures
            self.bytes(w).len() == self.total(),
            self.total() % 8 == 0,
            self.total() >= 24,
            self.body().len() == self.msg_len() - 16,
            !self.too_large() ==> self.descriptor().length8 * 8 == self.msg_len()
                && self.descriptor().data_offset8 * 8 == self.data_offset(),
    {
        let footer = Footer { reserved: 0, offset: w };
        assert(self.head().len() == 16) by {
            self.descriptor().lemma_wire_len();
        }
        assert(footer.wire().len() == 8) by {
            footer.lemma_wire_len();
        }
        lemma_padded(self.ext_header);
        lemma_padded(self.payload);
        lemma_aligned_sum(self.ext_header.len() as int, self.payload.len() as int);
    }

    /// There is room for the packet between writer `w` and reader `r`.
    pub open spec fn fits(self, w: u32, r: u32, len: int) -> bool {
        self.total() <= ring_model::free_bytes(w as int, r as int, len)
    }

    /// The indices `w` and `r` are not such as a ring of this length can
    /// have.
    pub open spec fn bad_indices(self, w: u32, r: u32, len: int) -> bool {
        ring_model::free_bytes(w as int, r as int, len) < 0 || w + self.total() > u32::MAX
    }

    /// The accesses that put the packet in the ring and publish it: the
    /// data first, then the index, then the looks at the reader.
    pub open spec fn publish(self, len: int, seen: WriteSeen) -> Seq<Access> {
        seq![
            Access::Write { off: seen.write_idx as int, bytes: self.bytes(seen.write_idx) },
            Access::Store {
                word: IDX_IN as int,
                value: ((seen.write_idx + self.total()) % len) as u32,
            },
            Access::Load { word: IDX_OUT as int, value: seen.read_idx_after },
            Access::Load { word: IDX_INTERRUPT_MASK as int, value: seen.interrupt_mask },
        ]
    }

    /// The looks at the indices that every write starts with.
    pub open spec fn entry(self, seen: WriteSeen) -> Seq<Access> {
        seq![
            Access::Load { word: IDX_IN as int, value: seen.write_idx },
            Access::Load { word: IDX_OUT as int, value: seen.read_idx },
        ]
    }

    /// The hint to the reader, and the second look at its index.
    pub open spec fn hint(self, seen: WriteSeen) -> Seq<Access> {
        seq![
            Access::Store { word: IDX_PENDING_SEND_SZ as int, value: self.total() as u32 },
            Access::Load { word: IDX_OUT as int, value: seen.read_idx_reload },
        ]
    }

    /// All accesses of a write that sees `seen`.
    pub open spec fn write_accesses(self, len: int, seen: WriteSeen) -> Seq<Access> {
        if self.too_large() {
            Seq::empty()
        } else if self.bad_indices(seen.write_idx, seen.read_idx, len) {
            self.entry(seen)
        } else if self.fits(seen.write_idx, seen.read_idx, len) {
            self.entry(seen) + self.publish(len, seen)
        } else if self.fits(seen.write_idx, seen.read_idx_reload, len) {
            self.entry(seen) + self.hint(seen) + seq![
                Access::Store { word: IDX_PENDING_SEND_SZ as int, value: 0 },
            ] + self.publish(len, seen)
        } else {
            self.entry(seen) + self.hint(seen)
        }
    }

    /// What a write that sees `seen` returns.
    pub open spec fn write_result(self, len: int, seen: WriteSeen) -> Result<bool> {
        let done: Result<bool> = Ok(
            seen.read_idx_after == seen.write_idx && seen.interrupt_mask == 0,
        );
        if self.too_large() {
            Err(Error::Parse { ty: None, reason: "packet too large" })
        } else if self.bad_indices(seen.write_idx, seen.read_idx, len) {
            Err(Error::Parse { ty: None, reason: "ring index out of range" })
        } else if self.fits(seen.write_idx, seen.read_idx, len) {
            done
        } else if self.bad_indices(seen.write_idx, seen.read_idx_reload, len) {
            Err(Error::Parse { ty: None, reason: "ring index out of range" })
        } else if self.fits(seen.write_idx, seen.read_idx_reload, len) {
            done
        } else {
            Err(Error::RingFull)
        }
    }
}

/// The packet of a caller that brings its own descriptor `d`.
pub open spec fn raw_packet(d: Seq<u8>, payload: Seq<u8>) -> OutPacket {
    OutPacket {
        packet_type: PacketType(0),
        ext_header: Seq::empty(),
        payload,
        flags: PacketFlags(0),
        transaction_id: 0,
        verbatim: Some(d),
    }
}

/// The bytes of a descriptor that the caller may bring.
pub open spec fn given_bytes(given: Option<[u8; 16]>) -> Option<Seq<u8>> {
    match given {
        Some(d) => Some(d@),
        None => None,
    }
}

// ---------------------------------------------------------------------------
// Reading
// ---------------------------------------------------------------------------
/// What a read saw, in the order it read it.
pub struct ReadSeen {
    /// The writer's index.
    pub write_idx: u32,
    /// The reader's own index.
    pub read_idx: u32,
    /// The bytes of the descriptor.
    pub head: Seq<u8>,
    /// The bytes behind the descriptor, up to the footer.
    pub body: Seq<u8>,
}

/// What a successful read gives.
#[verifier::ext_equal]
pub struct InPacket {
    pub descriptor: PacketDescriptor,
    pub ext_header: Seq<u8>,
    pub payload: Seq<u8>,
}

impl ReadSeen {
    /// What a read sees where nobody interferes.
    pub open spec fn of(s: RingState) -> ReadSeen {
        let head = s.bytes_at(s.read_idx() as int, 16);
        let d: PacketDescriptor = wire::decoded(head);
        ReadSeen {
            write_idx: s.write_idx(),
            read_idx: s.read_idx(),
            head,
            body: s.bytes_at(s.read_idx() + 16, d.length8 * 8 - 16),
        }
    }

    /// The descriptor that was read.
    pub open spec fn descriptor(self) -> PacketDescriptor {
        wire::decoded(self.head)
    }

    /// Length of the packet without its footer.
    pub open spec fn msg_len(self) -> int {
        self.descriptor().length8 * 8
    }

    /// Offset from the start of the packet to the payload.
    pub open spec fn data_offset(self) -> int {
        self.descriptor().data_offset8 * 8
    }

    /// The descriptor does not describe a packet that the ring can hold
    /// at this point.
    pub open spec fn bad_length(self, len: int) -> bool {
        ||| self.msg_len() < self.data_offset()
        ||| self.data_offset() < 16
        ||| self.msg_len() + 8 > ring_model::data_bytes(
            self.write_idx as int,
            self.read_idx as int,
            len,
        )
        ||| self.read_idx + self.msg_len() + 8 > u32::MAX
    }

    /// The caller's buffer is too small for this packet.
    pub open spec fn too_small(self, buf_len: int) -> bool {
        buf_len < self.msg_len() - 8
    }

    /// The read gets as far as the body.
    pub open spec fn takes(self, len: int, buf_len: int) -> bool {
        &&& self.write_idx != self.read_idx
        &&& !self.bad_length(len)
        &&& !self.too_small(buf_len)
    }

    /// The pieces that were read have the lengths that were asked for.
    pub open spec fn shaped(self, len: int, buf_len: int) -> bool {
        &&& self.head.len() == 16
        &&& self.takes(len, buf_len) ==> self.body.len() == self.msg_len() - 16
    }

    /// All accesses of a read that sees `self`.
    pub open spec fn read_accesses(self, len: int, buf_len: int) -> Seq<Access> {
        let entry = seq![
            Access::Load { word: IDX_IN as int, value: self.write_idx },
            Access::Load { word: IDX_OUT as int, value: self.read_idx },
        ];
        let look = seq![Access::Read { off: self.read_idx as int, bytes: self.head }];
        if self.write_idx == self.read_idx {
            entry
        } else if !self.takes(len, buf_len) {
            entry + look
        } else {
            entry + look + seq![
                Access::Read { off: self.read_idx + 16, bytes: self.body },
                Access::Store {
                    word: IDX_OUT as int,
                    value: ((self.read_idx + self.msg_len() + 8) % len) as u32,
                },
            ]
        }
    }

    /// What a read that sees `self` returns.
    pub open spec fn read_result(self, len: int, buf_len: int) -> Result<InPacket> {
        if self.write_idx == self.read_idx {
            Err(Error::RingEmpty)
        } else if self.bad_length(len) {
            Err(Error::Parse { ty: None, reason: "descriptor length out of range" })
        } else if self.too_small(buf_len) {
            Err(Error::Parse { ty: None, reason: "recv buffer smaller than packet payload" })
        } else {
            Ok(
                InPacket {
                    descriptor: self.descriptor(),
                    ext_header: self.body.take(self.data_offset() - 16),
                    payload: self.body.skip(self.data_offset() - 16),
                },
            )
        }
    }
}

// ---------------------------------------------------------------------------
// The packet queue
// ---------------------------------------------------------------------------
/// A packet that waits in a ring.
#[verifier::ext_equal]
pub struct QueuedPacket {
    pub descriptor: PacketDescriptor,
    /// What lies between descriptor and footer.
    pub body: Seq<u8>,
    pub footer: Seq<u8>,
}

impl QueuedPacket {
    /// The descriptor agrees with the rest.
    pub open spec fn wf(self) -> bool {
        &&& self.descriptor.length8 * 8 == 16 + self.body.len()
        &&& 16 <= self.descriptor.data_offset8 * 8 <= self.descriptor.length8 * 8
        &&& self.footer.len() == 8
    }

    /// The packet's bytes.
    pub open spec fn bytes(self) -> Seq<u8> {
        self.descriptor.wire() + self.body + self.footer
    }

    /// What a reader gets for this packet.
    pub open spec fn received(self) -> InPacket {
        InPacket {
            descriptor: self.descriptor,
            ext_header: self.body.take(self.descriptor.data_offset8 * 8 - 16),
            payload: self.body.skip(self.descriptor.data_offset8 * 8 - 16),
        }
    }
}

impl OutPacket {
    /// The packet once it waits in a ring at index `w`.
    pub open spec fn queued(self, w: u32) -> QueuedPacket {
        QueuedPacket {
            descriptor: self.descriptor(),
            body: self.body(),
            footer: (Footer { reserved: 0, offset: w }).wire(),
        }
    }
}

/// The bytes of a run of packets.
pub open spec fn flatten(ps: Seq<QueuedPacket>) -> Seq<u8>
    decreases ps.len(),
{
    if ps.len() == 0 {
        Seq::empty()
    } else {
        flatten(ps.drop_last()) + ps.last().bytes()
    }
}

/// The bytes pending in `s` are those of the packets `ps`, oldest first.
pub open spec fn holds(s: RingState, ps: Seq<QueuedPacket>) -> bool {
    &&& s.wf()
    &&& s.indices_ok()
    &&& s.pending() == flatten(ps)
    &&& forall|i: int| 0 <= i < ps.len() ==> (#[trigger] ps[i]).wf()
}

/// The oldest packet comes first.
proof fn lemma_flatten_first(ps: Seq<QueuedPacket>)
    requires
        ps.len() > 0,
    ensures
        flatten(ps) == ps[0].bytes() + flatten(ps.drop_first()),
    decreases ps.len(),
{
    if ps.len() == 1 {
        assert(ps.drop_last() =~= Seq::empty());
        assert(ps.drop_first() =~= Seq::empty());
        assert(flatten(ps) =~= ps[0].bytes() + flatten(ps.drop_first()));
    } else {
        lemma_flatten_first(ps.drop_last());
        assert(ps.drop_last().drop_first() =~= ps.drop_first().drop_last());
        assert(ps.drop_last()[0] == ps[0]);
        assert(ps.drop_first().last() == ps.last());
        assert(flatten(ps) =~= ps[0].bytes() + flatten(ps.drop_first()));
    }
}

/// A queue is empty exactly when its bytes are.
pub proof fn lemma_flatten_len(ps: Seq<QueuedPacket>)
    requires
        forall|i: int| 0 <= i < ps.len() ==> (#[trigger] ps[i]).wf(),
    ensures
        flatten(ps).len() >= 24 * ps.len(),
        ps.len() == 0 ==> flatten(ps).len() == 0,
    decreases ps.len(),
{
    if ps.len() > 0 {
        lemma_flatten_len(ps.drop_last());
        ps.last().descriptor.lemma_wire_len();
        assert(ps.last().wf());
    }
}

/// Law: a write that finds room puts its packet at the end of the queue,
/// and asks for a signal exactly when the queue was empty and the reader
/// has not masked interrupts.
pub proof fn law_write_enqueues(s: RingState, p: OutPacket, ps: Seq<QueuedPacket>)
    requires
        holds(s, ps),
        p.verbatim is None,
        !p.too_large(),
        p.fits(s.write_idx(), s.read_idx(), s.len()),
    ensures
        holds(
            s.apply_all(p.write_accesses(s.len(), WriteSeen::of(s))),
            ps.push(p.queued(s.write_idx())),
        ),
        p.write_result(s.len(), WriteSeen::of(s)) == Ok::<bool, Error>(
            ps.len() == 0 && s.words[IDX_INTERRUPT_MASK as int] == 0,
        ),
{
    let w = s.write_idx();
    let seen = WriteSeen::of(s);
    let len = s.len();
    p.lemma_bytes(w);
    s.lemma_empty();
    lemma_flatten_len(ps);
    ring_model::lemma_mod_shift(w + p.total(), len);
    let acc = p.write_accesses(len, seen);
    assert(!p.bad_indices(w, s.read_idx(), len));
    lemma_write_effect(s, p);
    let next = s.write(w as int, p.bytes(w)).store(
        IDX_IN as int,
        ((w + p.total()) % len) as u32,
    );
    s.lemma_append(p.bytes(w), next);
    let qs = ps.push(p.queued(w));
    assert(qs.drop_last() =~= ps);
    assert(p.queued(w).bytes() == p.bytes(w));
    assert(flatten(qs) == flatten(ps) + p.bytes(w));
    assert forall|i: int| 0 <= i < qs.len() implies (#[trigger] qs[i]).wf() by {
        if i < ps.len() {
            assert(qs[i] == ps[i]);
        } else {
            (Footer { reserved: 0, offset: w }).lemma_wire_len();
        }
    }
}

/// What a write that finds room leaves in memory.
pub proof fn lemma_write_effect(s: RingState, p: OutPacket)
    requires
        s.wf(),
        !p.too_large(),
        p.fits(s.write_idx(), s.read_idx(), s.len()),
        !p.bad_indices(s.write_idx(), s.read_idx(), s.len()),
    ensures
        s.apply_all(p.write_accesses(s.len(), WriteSeen::of(s))) == s.write(
            s.write_idx() as int,
            p.bytes(s.write_idx()),
        ).store(IDX_IN as int, ((s.write_idx() + p.total()) % s.len()) as u32),
{
    let seen = WriteSeen::of(s);
    let e = p.entry(seen);
    let q = p.publish(s.len(), seen);
    let a0 = Seq::<Access>::empty();
    let a1 = a0.push(e[0]);
    let a2 = a1.push(e[1]);
    let a3 = a2.push(q[0]);
    let a4 = a3.push(q[1]);
    let a5 = a4.push(q[2]);
    let a6 = a5.push(q[3]);
    s.lemma_apply_push(a0, e[0]);
    s.lemma_apply_push(a1, e[1]);
    s.lemma_apply_push(a2, q[0]);
    s.lemma_apply_push(a3, q[1]);
    s.lemma_apply_push(a4, q[2]);
    s.lemma_apply_push(a5, q[3]);
    assert(p.write_accesses(s.len(), seen) =~= a6);
}

/// Law: a write that finds no room leaves the queue alone, reports the
/// ring full, and leaves the number of bytes it needs as a hint to the
/// reader.
pub proof fn law_write_full(s: RingState, p: OutPacket, ps: Seq<QueuedPacket>)
    requires
        holds(s, ps),
        p.shaped(),
        !p.too_large(),
        !p.fits(s.write_idx(), s.read_idx(), s.len()),
    ensures
        holds(s.apply_all(p.write_accesses(s.len(), WriteSeen::of(s))), ps),
        s.apply_all(
            p.write_accesses(s.len(), WriteSeen::of(s)),
        ).words[IDX_PENDING_SEND_SZ as int] == p.total(),
        p.write_result(s.len(), WriteSeen::of(s)) == Err::<bool, Error>(Error::RingFull),
{
    let seen = WriteSeen::of(s);
    p.lemma_bytes(s.write_idx());
    s.lemma_empty();
    let e = p.entry(seen);
    let h = p.hint(seen);
    let a0 = Seq::<Access>::empty();
    let a1 = a0.push(e[0]);
    let a2 = a1.push(e[1]);
    let a3 = a2.push(h[0]);
    let a4 = a3.push(h[1]);
    s.lemma_apply_push(a0, e[0]);
    s.lemma_apply_push(a1, e[1]);
    s.lemma_apply_push(a2, h[0]);
    s.lemma_apply_push(a3, h[1]);
    assert(p.write_accesses(s.len(), seen) =~= a4);
    let next = s.store(IDX_PENDING_SEND_SZ as int, p.total() as u32);
    assert(next.pending() =~= s.pending());
}

/// What a read sees of a queue that is not empty, and what it leaves.
proof fn lemma_read_first(s: RingState, ps: Seq<QueuedPacket>, buf_len: int)
    requires
        holds(s, ps),
        ps.len() > 0,
    ensures
        ReadSeen::of(s).descriptor() == ps[0].descriptor,
        ReadSeen::of(s).head == ps[0].descriptor.wire(),
        ReadSeen::of(s).body == ps[0].body,
        s.write_idx() != s.read_idx(),
        !ReadSeen::of(s).bad_length(s.len()),
{
    let p = ps[0];
    let seen = ReadSeen::of(s);
    let r = s.read_idx() as int;
    assert(p.wf());
    s.lemma_empty();
    lemma_flatten_len(ps);
    lemma_flatten_first(ps);
    p.descriptor.lemma_wire_len();
    let pend = s.pending();
    assert(s.bytes_at(r, 16) =~= pend.take(16));
    assert(pend.take(16) =~= p.descriptor.wire());
    wire::lemma_decoded(p.descriptor);
    let n = p.descriptor.length8 * 8 - 16;
    assert(p.bytes().len() == n + 24);
    assert(pend.len() >= p.bytes().len());
    assert forall|i: int| 0 <= i < n implies #[trigger] seen.body[i] == p.body[i] by {
        assert(seen.body[i] == s.data[(r + 16 + i) % s.len()]);
        assert(pend[16 + i] == s.data[(r + (16 + i)) % s.len()]);
        assert(pend[16 + i] == p.bytes()[16 + i]);
    }
    assert(seen.body =~= p.body);
}

/// Law: a read takes the oldest packet out of the queue, if the caller's
/// buffer holds it.
pub proof fn law_read_dequeues(s: RingState, ps: Seq<QueuedPacket>, buf_len: int)
    requires
        holds(s, ps),
        ps.len() > 0,
        ps[0].descriptor.length8 * 8 - 8 <= buf_len,
    ensures
        holds(
            s.apply_all(ReadSeen::of(s).read_accesses(s.len(), buf_len)),
            ps.drop_first(),
        ),
        ReadSeen::of(s).read_result(s.len(), buf_len) == Ok::<InPacket, Error>(
            ps[0].received(),
        ),
{
    let seen = ReadSeen::of(s);
    lemma_read_first(s, ps, buf_len);
    lemma_flatten_first(ps);
    let p = ps[0];
    assert(p.wf());
    p.descriptor.lemma_wire_len();
    let total = p.descriptor.length8 * 8 + 8;
    let next = s.store(IDX_OUT as int, ((s.read_idx() + total) % s.len()) as u32);
    s.lemma_pop(total, next);
    assert(next.pending() =~= flatten(ps.drop_first()));
    let a = seen.read_accesses(s.len(), buf_len);
    let a0 = Seq::<Access>::empty();
    let a1 = a0.push(a[0]);
    let a2 = a1.push(a[1]);
    let a3 = a2.push(a[2]);
    let a4 = a3.push(a[3]);
    let a5 = a4.push(a[4]);
    s.lemma_apply_push(a0, a[0]);
    s.lemma_apply_push(a1, a[1]);
    s.lemma_apply_push(a2, a[2]);
    s.lemma_apply_push(a3, a[3]);
    s.lemma_apply_push(a4, a[4]);
    assert(a =~= a5);
    let qs = ps.drop_first();
    assert forall|i: int| 0 <= i < qs.len() implies (#[trigger] qs[i]).wf() by {
        assert(qs[i] == ps[i + 1]);
    }
}

/// Law: a read with too small a buffer leaves the packet pending.
pub proof fn law_read_keeps(s: RingState, ps: Seq<QueuedPacket>, buf_len: int)
    requires
        holds(s, ps),
        ps.len() > 0,
        buf_len < ps[0].descriptor.length8 * 8 - 8,
    ensures
        s.apply_all(ReadSeen::of(s).read_accesses(s.len(), buf_len)) == s,
        ReadSeen::of(s).read_result(s.len(), buf_len) == Err::<InPacket, Error>(
            Error::Parse { ty: None, reason: "recv buffer smaller than packet payload" },
        ),
{
    let seen = ReadSeen::of(s);
    lemma_read_first(s, ps, buf_len);
    let a = seen.read_accesses(s.len(), buf_len);
    let a0 = Seq::<Access>::empty();
    let a1 = a0.push(a[0]);
    let a2 = a1.push(a[1]);
    let a3 = a2.push(a[2]);
    s.lemma_apply_push(a0, a[0]);
    s.lemma_apply_push(a1, a[1]);
    s.lemma_apply_push(a2, a[2]);
    assert(a =~= a3);
}

/// Law: a read of an empty queue says so and changes nothing.
pub proof fn law_read_empty(s: RingState, buf_len: int)
    requires
        holds(s, Seq::empty()),
    ensures
        s.apply_all(ReadSeen::of(s).read_accesses(s.len(), buf_len)) == s,
        ReadSeen::of(s).read_result(s.len(), buf_len) == Err::<InPacket, Error>(
            Error::RingEmpty,
        ),
{
    let seen = ReadSeen::of(s);
    s.lemma_empty();
    let a = seen.read_accesses(s.len(), buf_len);
    let a0 = Seq::<Access>::empty();
    let a1 = a0.push(a[0]);
    let a2 = a1.push(a[1]);
    s.lemma_apply_push(a0, a[0]);
    s.lemma_apply_push(a1, a[1]);
    assert(a =~= a2);
}

/// Law: what a reader gets for a packet that was written is what the
/// writer was given, each part padded with zero bytes to a multiple of 8.
pub proof fn law_received_is_sent(p: OutPacket, w: u32)
    requires
        p.verbatim is None,
        !p.too_large(),
    ensures
        p.queued(w).wf(),
        p.queued(w).received() == (InPacket {
            descriptor: p.descriptor(),
            ext_header: padded(p.ext_header),
            payload: padded(p.payload),
        }),
{
    p.lemma_bytes(w);
    lemma_padded(p.ext_header);
    lemma_padded(p.payload);
    (Footer { reserved: 0, offset: w }).lemma_wire_len();
    assert(p.queued(w).received().ext_header =~= padded(p.ext_header));
    assert(p.queued(w).received().payload =~= padded(p.payload));
}

/// Law: a descriptor that the caller brings stands in the ring as it is,
/// and nothing else depends on it: neither the other bytes of the packet
/// nor what the write does to the indices nor what it returns.
pub proof fn law_verbatim_descriptor(p: OutPacket, d: Seq<u8>, w: u32, len: int, seen: WriteSeen)
    requires
        p.verbatim is None,
        d.len() == 16,
    ensures
        ({
            let raw = OutPacket { verbatim: Some(d), ..p };
            &&& raw.bytes(w) == d + p.bytes(w).skip(16)
            &&& raw.total() == p.total()
            &&& raw.write_result(len, seen) == p.write_result(len, seen)
            &&& raw.entry(seen) == p.entry(seen)
            &&& raw.hint(seen) == p.hint(seen)
            &&& raw.publish(len, seen).skip(1) == p.publish(len, seen).skip(1)
        }),
{
    let raw = OutPacket { verbatim: Some(d), ..p };
    p.descriptor().lemma_wire_len();
    assert(raw.bytes(w) =~= d + p.bytes(w).skip(16));
    assert(raw.publish(len, seen).skip(1) =~= p.publish(len, seen).skip(1));
}

/// Law: the memory a new ring starts from holds an empty queue.
pub proof fn law_new_ring_empty(s: RingState)
    requires
        s.wf(),
        s.write_idx() == 0,
        s.read_idx() == 0,
    ensures
        holds(s, Seq::empty()),
{
    s.lemma_empty();
    assert(s.pending() =~= Seq::empty());
    assert(flatten(Seq::empty()) =~= Seq::empty());
}

} // verus!
