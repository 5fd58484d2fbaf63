//! Ring-buffer send / receive.
//!
//! Each half of a full-duplex channel has a **control page** (4 KiB) at
//! offset 0 and a **data area** of N contiguous pages after it:
//!
//! ```text
//! +----------------------+  page 0 (control page)
//! | word[0] write_index  |  aka `in`
//! | word[1] read_index   |  aka `out`
//! | word[2] interrupt_mask|
//! | word[3] pending_send_sz|
//! | ...                  |
//! | word[16] feature_bits|
//! +----------------------+  page 1 .. N (data pages)
//! | packet_descriptor    |
//! | optional ext header  |
//! | payload (8-aligned)  |
//! | footer               |
//! | ... next packet ...  |
//! +----------------------+
//! ```
//!
//! The writer signals the host **only** on an empty to non-empty
//! transition when `interrupt_mask == 0`; the peer clears
//! `interrupt_mask` to explicitly ask for the wake.
//!
//! A ring is shared with a peer that can change it at any moment. Each
//! half therefore keeps a ghost record of the accesses it made, with the
//! values it saw, and every operation says which accesses it makes and
//! what it returns for the values seen. Where no peer interferes
//! ([`RingMem::exclusive`]), the same contracts say what the memory holds
//! afterwards.
use crate::error::Error;
use crate::error::Result;
use crate::packet;
use crate::packet::Footer;
use crate::packet::InPacket;
use crate::packet::OutPacket;
use crate::packet::QueuedPacket;
use crate::packet::ReadSeen;
use crate::packet::WriteSeen;
use crate::protocol::GpaDirectHeader;
use crate::protocol::GpaRange;
use crate::protocol::PacketDescriptor;
use crate::protocol::PacketFlags;
use crate::protocol::PacketType;
use crate::ring_model;
use crate::ring_model::Access;
use crate::ring_model::RingState;
use crate::ring_model::CONTROL_WORD_COUNT;
use crate::ring_model::IDX_FEATURE_BITS;
use crate::ring_model::IDX_IN;
use crate::ring_model::IDX_INTERRUPT_MASK;
use crate::ring_model::IDX_OUT;
use crate::ring_model::IDX_PENDING_SEND_SZ;
use crate::wire;
use crate::wire::Wire;
use vstd::prelude::*;

verus! {

/// Size (in bytes) of the ring control page.
pub const CONTROL_PAGE_SIZE: usize = 4096;

/// Size of the descriptor that begins every packet.
pub const DESCRIPTOR_SIZE: usize = 16;

/// Size of the footer that ends every packet.
pub const FOOTER_SIZE: usize = 8;

/// Feature bit 0 in `feature_bits`. When set by the ring's **writer**,
/// the writer promises to observe the `pending_send_sz` protocol (i.e. it
/// will kick the reader when free space crosses the pending threshold).
/// The guest sets it on its **SendRing** at init; the host sets it on the
/// guest's **RecvRing**.
pub const FEATURE_SUPPORTS_PENDING_SEND_SIZE: u32 = 0x1;

/// Round `n` up to a multiple of 8.
pub fn align8(n: usize) -> (r: usize)
    requires
        n + 7 <= usize::MAX,
    ensures
        r == ring_model::align8_spec(n as int),
        n <= r < n + 8,
        r % 8 == 0,
{
    (n + 7) / 8 * 8
}

/// Number of free bytes available for the writer, `None` where the
/// indices leave no such number.
///
/// One slot is reserved so `write_idx == read_idx` unambiguously means
/// empty.
pub fn available_free(write_idx: u32, read_idx: u32, ring_len: u32) -> (r: Option<u32>)
    ensures
        r == free_opt(write_idx, read_idx, ring_len as int),
{
    if write_idx >= read_idx {
        let used: u32 = write_idx - read_idx;
        if ring_len >= used && ring_len - used >= 8 {
            Some(ring_len - used - 8)
        } else {
            None
        }
    } else {
        let gap: u32 = read_idx - write_idx;
        if gap >= 8 {
            Some(gap - 8)
        } else {
            None
        }
    }
}

/// Number of bytes the reader can pull from the ring, `None` where the
/// indices leave no such number.
pub fn available_data(write_idx: u32, read_idx: u32, ring_len: u32) -> (r: Option<u32>)
    ensures
        r == data_opt(write_idx, read_idx, ring_len as int),
{
    if write_idx >= read_idx {
        Some(write_idx - read_idx)
    } else {
        let gap: u32 = read_idx - write_idx;
        if ring_len >= gap {
            Some(ring_len - gap)
        } else {
            None
        }
    }
}

/// The free bytes, where the indices leave a number of them.
pub open spec fn free_opt(w: u32, r: u32, len: int) -> Option<u32> {
    let n = ring_model::free_bytes(w as int, r as int, len);
    if n >= 0 {
        Some(n as u32)
    } else {
        None
    }
}

/// The readable bytes, where the indices leave a number of them.
pub open spec fn data_opt(w: u32, r: u32, len: int) -> Option<u32> {
    let n = ring_model::data_bytes(w as int, r as int, len);
    if n >= 0 {
        Some(n as u32)
    } else {
        None
    }
}

// ---------------------------------------------------------------------------
// Ring memory
// ---------------------------------------------------------------------------
/// Backing memory for one ring buffer.
///
/// Implementors expose a control page and a power-of-two-sized data area
/// that supports byte-granular reads and writes.
///
/// # Contract
///
/// * The data area size in bytes is a power of two and a multiple of 8.
/// * `read_at` / `write_at` treat the data area as a wrap-around ring;
///   offsets lie in `[0, data_len)`. Callers are responsible for wrapping.
/// * Byte reads and writes are not synchronised with the peer; the
///   publish/subscribe of the indices is what enforces memory ordering.
pub trait RingMem: Sized {
    /// What the memory holds. Its shape never changes. Its contents can
    /// be relied on only where the memory is [`Self::exclusive`].
    closed spec fn state(&self) -> RingState {
        arbitrary()
    }

    /// Whether no peer changes the memory. By default one may.
    open spec fn exclusive(&self) -> bool {
        false
    }

    /// Snapshot of the control words.
    fn control(&self) -> (r: Vec<u32>)
        requires
            self.state().wf(),
        ensures
            r@.len() == CONTROL_WORD_COUNT,
            self.exclusive() ==> r@ == self.state().words,
    ;

    /// Size of the data area in bytes.
    fn data_len(&self) -> (r: usize)
        ensures
            r == self.state().len(),
    ;

    /// Read a control word.
    fn load(&self, word: usize) -> (r: u32)
        requires
            self.state().wf(),
            word < CONTROL_WORD_COUNT,
        ensures
            self.exclusive() ==> r == self.state().words[word as int],
    ;

    /// Write a control word.
    fn store(&mut self, word: usize, value: u32)
        requires
            old(self).state().wf(),
            word < CONTROL_WORD_COUNT,
        ensures
            final(self).state().wf(),
            final(self).state().len() == old(self).state().len(),
            final(self).exclusive() == old(self).exclusive(),
            old(self).exclusive() ==> final(self).state() == old(self).state().store(
                word as int,
                value,
            ),
    ;

    /// Copy `data.len()` bytes from `off` into `data`. Offset must be
    /// in `[0, data_len)`.
    fn read_at(&self, off: usize, data: &mut [u8])
        requires
            self.state().wf(),
            off < self.state().len(),
        ensures
            final(data)@.len() == old(data)@.len(),
            self.exclusive() ==> final(data)@ == self.state().bytes_at(
                off as int,
                old(data)@.len() as int,
            ),
    ;

    /// Copy `data` into the ring at `off`. Offset must be in
    /// `[0, data_len)`.
    fn write_at(&mut self, off: usize, data: &[u8])
        requires
            old(self).state().wf(),
            off < old(self).state().len(),
        ensures
            final(self).state().wf(),
            final(self).state().len() == old(self).state().len(),
            final(self).exclusive() == old(self).exclusive(),
            old(self).exclusive() ==> final(self).state() == old(self).state().write(
                off as int,
                data@,
            ),
    ;
}

/// Control words and data area held in vectors.
struct Flat {
    control: Vec<u32>,
    data: Vec<u8>,
}

impl Flat {
    spec fn state(&self) -> RingState {
        RingState { words: self.control@, data: self.data@ }
    }

    fn new(data_len: usize) -> (r: Self)
        ensures
            r.state() == (RingState {
                words: Seq::new(CONTROL_WORD_COUNT as nat, |i: int| 0u32),
                data: wire::zeros(data_len as nat),
            }),
    {
        let mut control: Vec<u32> = Vec::new();
        while control.len() < CONTROL_WORD_COUNT
            invariant
                control@.len() <= CONTROL_WORD_COUNT,
                forall|i: int| 0 <= i < control@.len() ==> control@[i] == 0u32,
            decreases CONTROL_WORD_COUNT - control@.len(),
        {
            control.push(0);
        }
        let mut data: Vec<u8> = Vec::new();
        while data.len() < data_len
            invariant
                data@.len() <= data_len,
                forall|i: int| 0 <= i < data@.len() ==> data@[i] == 0u8,
            decreases data_len - data@.len(),
        {
            data.push(0);
        }
        let r = Flat { control, data };
        proof {
            assert(r.state().words =~= Seq::new(CONTROL_WORD_COUNT as nat, |i: int| 0u32));
            assert(r.state().data =~= wire::zeros(data_len as nat));
        }
        r
    }

    fn read_at(&self, off: usize, out: &mut [u8])
        requires
            self.state().wf(),
            off < self.state().len(),
        ensures
            final(out)@ == self.state().bytes_at(off as int, old(out)@.len() as int),
    {
        let len = self.data.len();
        let mut pos: usize = off;
        let mut i: usize = 0;
        proof {
            ring_model::lemma_mod_shift(off as int, len as int);
        }
        while i < out.len()
            invariant
                i <= out@.len(),
                out@.len() == old(out)@.len(),
                len == self.data@.len(),
                len > 0,
                pos == (off + i) % len as int,
                forall|j: int|
                    0 <= j < i ==> #[trigger] out@[j] == self.data@[(off + j) % len as int],
            decreases out@.len() - i,
        {
            proof {
                ring_model::lemma_mod_shift(off + i, len as int);
                ring_model::lemma_mod_add(off + i, 1, len as int);
                ring_model::lemma_mod_shift(0, len as int);
                ring_model::lemma_mod_shift(pos + 1, len as int);
            }
            out[i] = self.data[pos];
            i += 1;
            pos = if pos + 1 == len {
                0
            } else {
                pos + 1
            };
        }
        proof {
            assert(out@ =~= self.state().bytes_at(off as int, out@.len() as int));
        }
    }

    fn write_at(&mut self, off: usize, bytes: &[u8])
        requires
            old(self).state().wf(),
            off < old(self).state().len(),
        ensures
            final(self).state() == old(self).state().write(off as int, bytes@),
    {
        let len = self.data.len();
        let mut pos: usize = off;
        let mut i: usize = 0;
        let ghost before = self.state();
        proof {
            ring_model::lemma_mod_shift(off as int, len as int);
            assert(bytes@.take(0).len() == 0);
        }
        while i < bytes.len()
            invariant
                i <= bytes@.len(),
                len > 0,
                len == before.len(),
                before == old(self).state(),
                pos == (off + i) % len as int,
                self.state() == before.write(off as int, bytes@.take(i as int)),
            decreases bytes@.len() - i,
        {
            proof {
                before.lemma_write_shape(off as int, bytes@.take(i as int));
                ring_model::lemma_mod_shift(off + i, len as int);
                ring_model::lemma_mod_add(off + i, 1, len as int);
                ring_model::lemma_mod_shift(0, len as int);
                ring_model::lemma_mod_shift(pos + 1, len as int);
                assert(bytes@.take(i + 1).drop_last() =~= bytes@.take(i as int));
            }
            self.data[pos] = bytes[i];
            i += 1;
            pos = if pos + 1 == len {
                0
            } else {
                pos + 1
            };
            proof {
                assert(self.state() =~= before.write(off as int, bytes@.take(i as int)));
            }
        }
        proof {
            assert(bytes@.take(i as int) =~= bytes@);
        }
    }
}

/// A vector-backed [`RingMem`] of any legal size.
pub struct FlatRingMem {
    flat: Flat,
}

impl FlatRingMem {
    /// Create a ring with `data_len` bytes of data area. Must be a
    /// power of two and a multiple of 8.
    pub fn new(data_len: usize) -> (r: Self)
        requires
            data_len >= 8,
            vstd::arithmetic::power2::is_pow2(data_len as int),
        ensures
            r.state() == (RingState {
                words: Seq::new(CONTROL_WORD_COUNT as nat, |i: int| 0u32),
                data: wire::zeros(data_len as nat),
            }),
    {
        FlatRingMem { flat: Flat::new(data_len) }
    }
}

impl RingMem for FlatRingMem {
    closed spec fn state(&self) -> RingState {
        self.flat.state()
    }

    open spec fn exclusive(&self) -> bool {
        true
    }

    fn control(&self) -> (r: Vec<u32>) {
        let r = self.flat.control.clone();
        proof {
            assert(r@ =~= self.flat.control@);
        }
        r
    }

    fn data_len(&self) -> (r: usize) {
        self.flat.data.len()
    }

    fn load(&self, word: usize) -> (r: u32) {
        self.flat.control[word]
    }

    fn store(&mut self, word: usize, value: u32) {
        self.flat.control[word] = value;
    }

    fn read_at(&self, off: usize, data: &mut [u8]) {
        self.flat.read_at(off, data);
    }

    fn write_at(&mut self, off: usize, data: &[u8]) {
        proof {
            self.flat.state().lemma_write_shape(off as int, data@);
        }
        self.flat.write_at(off, data);
    }
}

/// Owning ring memory sized in pages. Suitable where the caller thinks in
/// page-granular allocations.
pub struct OwnedRingMem {
    flat: Flat,
}

impl OwnedRingMem {
    /// Allocate a ring with `data_pages` pages of data (each 4096 bytes).
    /// `data_pages` must be a power of two.
    pub fn new(data_pages: usize) -> (r: Self)
        requires
            data_pages > 0,
            vstd::arithmetic::power2::is_pow2(data_pages as int),
            data_pages * CONTROL_PAGE_SIZE <= usize::MAX,
        ensures
            r.state() == (RingState {
                words: Seq::new(CONTROL_WORD_COUNT as nat, |i: int| 0u32),
                data: wire::zeros((data_pages * CONTROL_PAGE_SIZE) as nat),
            }),
    {
        OwnedRingMem { flat: Flat::new(data_pages * CONTROL_PAGE_SIZE) }
    }
}

impl RingMem for OwnedRingMem {
    closed spec fn state(&self) -> RingState {
        self.flat.state()
    }

    open spec fn exclusive(&self) -> bool {
        true
    }

    fn control(&self) -> (r: Vec<u32>) {
        let r = self.flat.control.clone();
        proof {
            assert(r@ =~= self.flat.control@);
        }
        r
    }

    fn data_len(&self) -> (r: usize) {
        self.flat.data.len()
    }

    fn load(&self, word: usize) -> (r: u32) {
        self.flat.control[word]
    }

    fn store(&mut self, word: usize, value: u32) {
        self.flat.control[word] = value;
    }

    fn read_at(&self, off: usize, data: &mut [u8]) {
        self.flat.read_at(off, data);
    }

    fn write_at(&mut self, off: usize, data: &[u8]) {
        proof {
            self.flat.state().lemma_write_shape(off as int, data@);
        }
        self.flat.write_at(off, data);
    }
}

/// Memory together with the record of what one half of the ring did to
/// it.
struct Port<M: RingMem> {
    mem: M,
    trace: Ghost<Seq<Access>>,
}

impl<M: RingMem> Port<M> {
    spec fn kept(self, next: Self) -> bool {
        &&& next.mem.state().wf()
        &&& next.mem.state().len() == self.mem.state().len()
        &&& next.mem.exclusive() == self.mem.exclusive()
    }

    fn new(mem: M) -> (r: Self)
        ensures
            r.mem == mem,
            r.trace@ == Seq::<Access>::empty(),
    {
        Port { mem, trace: Ghost(Seq::empty()) }
    }

    fn load(&mut self, word: usize) -> (r: u32)
        requires
            old(self).mem.state().wf(),
            word < CONTROL_WORD_COUNT,
        ensures
            old(self).kept(*final(self)),
            final(self).trace@ == old(self).trace@.push(
                Access::Load { word: word as int, value: r },
            ),
            final(self).mem == old(self).mem,
            old(self).mem.exclusive() ==> r == old(self).mem.state().words[word as int],
    {
        let r = self.mem.load(word);
        self.trace = Ghost(self.trace@.push(Access::Load { word: word as int, value: r }));
        r
    }

    fn store(&mut self, word: usize, value: u32)
        requires
            old(self).mem.state().wf(),
            word < CONTROL_WORD_COUNT,
        ensures
            old(self).kept(*final(self)),
            final(self).trace@ == old(self).trace@.push(
                Access::Store { word: word as int, value },
            ),
            old(self).mem.exclusive() ==> final(self).mem.state() == old(self).mem.state().store(
                word as int,
                value,
            ),
    {
        self.mem.store(word, value);
        self.trace = Ghost(self.trace@.push(Access::Store { word: word as int, value }));
    }

    /// Write `bytes` at `off`, wrapping at the ring boundary.
    fn write_wrapping(&mut self, off: usize, bytes: &[u8])
        requires
            old(self).mem.state().wf(),
        ensures
            old(self).kept(*final(self)),
            final(self).trace@ == old(self).trace@.push(
                Access::Write { off: off as int, bytes: bytes@ },
            ),
            old(self).mem.exclusive() ==> final(self).mem.state() == old(self).mem.state().write(
                off as int,
                bytes@,
            ),
    {
        let ghost before = self.mem.state();
        self.trace = Ghost(self.trace@.push(Access::Write { off: off as int, bytes: bytes@ }));
        if bytes.len() == 0 {
            return ;
        }
        let len = self.mem.data_len();
        let start = off % len;
        proof {
            before.lemma_write_mod(off as int, bytes@);
            ring_model::lemma_mod_shift(off as int, len as int);
        }
        if bytes.len() <= len - start {
            self.mem.write_at(start, bytes);
        } else {
            let first = len - start;
            let head = &bytes[0..first];
            let tail = &bytes[first..bytes.len()];
            self.mem.write_at(start, head);
            self.mem.write_at(0, tail);
            proof {
                before.lemma_write_concat(start as int, head@, tail@);
                assert(head@ + tail@ =~= bytes@);
                vstd::arithmetic::div_mod::lemma_mod_self_0(len as int);
            }
        }
    }

    /// Fill `bytes` from `off`, wrapping at the ring boundary.
    fn read_wrapping(&mut self, off: usize, bytes: &mut [u8])
        requires
            old(self).mem.state().wf(),
        ensures
            old(self).kept(*final(self)),
            final(bytes)@.len() == old(bytes)@.len(),
            final(self).trace@ == old(self).trace@.push(
                Access::Read { off: off as int, bytes: final(bytes)@ },
            ),
            final(self).mem == old(self).mem,
            old(self).mem.exclusive() ==> final(bytes)@ == old(self).mem.state().bytes_at(
                off as int,
                old(bytes)@.len() as int,
            ),
    {
        let ghost st = self.mem.state();
        let n = bytes.len();
        if n != 0 {
            let len = self.mem.data_len();
            let start = off % len;
            proof {
                st.lemma_bytes_at_mod(off as int, n as int);
                ring_model::lemma_mod_shift(off as int, len as int);
            }
            if n <= len - start {
                self.mem.read_at(start, bytes);
            } else {
                let first = len - start;
                let (a, b) = bytes.split_at_mut(first);
                self.mem.read_at(start, a);
                self.mem.read_at(0, b);
                proof {
                    st.lemma_bytes_at_concat(start as int, first as int, n - first);
                    vstd::arithmetic::div_mod::lemma_mod_self_0(len as int);
                }
            }
        }
        proof {
            if st.len() > 0 && self.mem.exclusive() {
                assert(bytes@ =~= st.bytes_at(off as int, n as int));
            }
        }
        self.trace = Ghost(self.trace@.push(Access::Read { off: off as int, bytes: bytes@ }));
    }
}

// ---------------------------------------------------------------------------
// Sending
// ---------------------------------------------------------------------------
/// Append `bytes` and as many zero bytes as make a multiple of 8.
fn push_padded(out: &mut Vec<u8>, bytes: &[u8])
    requires
        bytes@.len() + 7 <= usize::MAX,
    ensures
        final(out)@ == old(out)@ + packet::padded(bytes@),
{
    out.extend_from_slice(bytes);
    let pad = align8(bytes.len()) - bytes.len();
    let mut i: usize = 0;
    proof {
        assert(out@ =~= old(out)@ + bytes@ + wire::zeros(0));
    }
    while i < pad
        invariant
            i <= pad,
            out@ == old(out)@ + bytes@ + wire::zeros(i as nat),
        decreases pad - i,
    {
        out.push(0);
        i += 1;
        proof {
            assert(out@ =~= old(out)@ + bytes@ + wire::zeros(i as nat));
        }
    }
    proof {
        assert(out@ =~= old(out)@ + packet::padded(bytes@));
    }
}

/// Most page frame numbers that a GPA-direct packet carries.
pub const MAX_PFNS: usize = 32;

/// Why a GPA-direct packet over `pages` pages is refused, if it is.
pub open spec fn gpa_direct_error(pages: int, byte_offset: u32, byte_count: u32) -> Option<Error> {
    if pages == 0 {
        Some(Error::Parse { ty: None, reason: "write_gpa_direct requires >= 1 PFN" })
    } else if byte_offset >= pages * 4096 {
        Some(
            Error::Parse { ty: None, reason: "write_gpa_direct byte_offset exceeds PFN range" },
        )
    } else if byte_count > pages * 4096 - byte_offset {
        Some(Error::Parse { ty: None, reason: "write_gpa_direct byte_count exceeds PFN range" })
    } else if pages > MAX_PFNS {
        Some(
            Error::Parse {
                ty: None,
                reason: "write_gpa_direct pfn list too long for stack buffer",
            },
        )
    } else {
        None
    }
}

/// The extended header of a GPA-direct packet with one range.
pub open spec fn gpa_direct_header(pfns: Seq<u64>, byte_offset: u32, byte_count: u32) -> Seq<u8> {
    (GpaDirectHeader { reserved: 0, range_count: 1 }).wire() + (GpaRange {
        byte_count,
        byte_offset,
    }).wire() + wire::u64s(pfns)
}

/// Writer half of a ring buffer.
///
/// A ring is a single-producer / single-consumer channel, and the writer
/// side owns the `pending_send_sz` protocol on the control page. Writing
/// takes the half exclusively, so callers cannot share a writer.
pub struct SendRing<M: RingMem> {
    port: Port<M>,
}

impl<M: RingMem> SendRing<M> {
    /// What the ring's memory holds.
    pub closed spec fn state(&self) -> RingState {
        self.port.mem.state()
    }

    /// Whether no peer changes the memory.
    pub closed spec fn exclusive(&self) -> bool {
        self.port.mem.exclusive()
    }

    /// The accesses made so far.
    pub closed spec fn trace(&self) -> Seq<Access> {
        self.port.trace@
    }

    /// The backing memory.
    pub closed spec fn memory(&self) -> M {
        self.port.mem
    }

    /// The memory has the shape of a ring.
    pub open spec fn wf(&self) -> bool {
        self.state().wf()
    }

    /// `next` works on the same ring.
    pub open spec fn same_ring(self, next: Self) -> bool {
        &&& next.wf()
        &&& next.state().len() == self.state().len()
        &&& next.exclusive() == self.exclusive()
    }

    /// `self` became `next` by the accesses `acc`.
    pub open spec fn did(self, acc: Seq<Access>, next: Self) -> bool {
        &&& self.same_ring(next)
        &&& next.trace() == self.trace() + acc
        &&& self.exclusive() ==> next.state() == self.state().apply_all(acc)
    }

    /// `self` became `next` and returned `r` when it was asked to send
    /// `p`: it made the accesses, and gave the answer, that belong to what
    /// it saw. Where nobody interferes, that is what the memory held.
    pub open spec fn wrote(self, p: OutPacket, next: Self, r: Result<bool>) -> bool {
        exists|seen: WriteSeen|
            {
                &&& #[trigger] self.did(p.write_accesses(self.state().len(), seen), next)
                &&& r == p.write_result(self.state().len(), seen)
                &&& self.exclusive() ==> seen == WriteSeen::of(self.state())
            }
    }

    /// `self` was just made over `mem`: all that was done is to advertise
    /// the feature and to clear the hint.
    pub open spec fn made_over(self, mem: M) -> bool {
        &&& self.wf()
        &&& self.state().len() == mem.state().len()
        &&& self.exclusive() == mem.exclusive()
        &&& self.trace() == seq![
            Access::Store {
                word: IDX_FEATURE_BITS as int,
                value: FEATURE_SUPPORTS_PENDING_SEND_SIZE,
            },
            Access::Store { word: IDX_PENDING_SEND_SZ as int, value: 0 },
        ]
        &&& mem.exclusive() ==> self.state() == mem.state().store(
            IDX_FEATURE_BITS as int,
            FEATURE_SUPPORTS_PENDING_SEND_SIZE,
        ).store(IDX_PENDING_SEND_SZ as int, 0)
    }

    /// Construct a new send ring over `mem`.
    ///
    /// Advertises `FEATURE_SUPPORTS_PENDING_SEND_SIZE` on the send
    /// ring's control page: the guest is the writer of this ring, and the
    /// writer owns the `feature_bits` slot. Also zeros `pending_send_sz`
    /// to a known state.
    pub fn new(mem: M) -> (r: Self)
        requires
            mem.state().wf(),
        ensures
            r.made_over(mem),
    {
        let mut port = Port::new(mem);
        port.store(IDX_FEATURE_BITS, FEATURE_SUPPORTS_PENDING_SEND_SIZE);
        port.store(IDX_PENDING_SEND_SZ, 0);
        let r = SendRing { port };
        proof {
            assert(r.trace() =~= seq![
                Access::Store {
                    word: IDX_FEATURE_BITS as int,
                    value: FEATURE_SUPPORTS_PENDING_SEND_SIZE,
                },
                Access::Store { word: IDX_PENDING_SEND_SZ as int, value: 0 },
            ]);
        }
        r
    }

    /// Set the pending-send-size hint on our SendRing's control page.
    ///
    /// The peer (host reader) inspects this after draining and, on a
    /// transition from "not enough space" to "enough space", signals
    /// us. `size` is the number of free bytes we need before we can
    /// make progress. `size == 0` clears the hint.
    pub fn set_pending_send_size(&mut self, size: u32)
        requires
            old(self).wf(),
        ensures
            old(self).did(
                seq![Access::Store { word: IDX_PENDING_SEND_SZ as int, value: size }],
                *final(self),
            ),
    {
        let ghost a = Access::Store { word: IDX_PENDING_SEND_SZ as int, value: size };
        self.port.store(IDX_PENDING_SEND_SZ, size);
        proof {
            old(self).state().lemma_apply_push(Seq::empty(), a);
            assert(Seq::empty().push(a) =~= seq![a]);
            assert(self.trace() =~= old(self).trace() + seq![a]);
        }
    }

    /// Backing memory.
    pub fn mem(&self) -> (r: &M)
        ensures
            *r == self.memory(),
            r.state() == self.state(),
            r.exclusive() == self.exclusive(),
    {
        &self.port.mem
    }

    /// Post an inband packet with `payload`. Returns `true` if the
    /// caller should signal the peer (i.e. the ring transitioned from
    /// empty to non-empty and the peer has interrupts unmasked).
    pub fn write_inband(
        &mut self,
        payload: &[u8],
        flags: PacketFlags,
        transaction_id: u64,
    ) -> (r: Result<bool>)
        requires
            old(self).wf(),
        ensures
            old(self).wrote(
                (OutPacket {
                    packet_type: PacketType(PacketType::VM_PKT_DATA_INBAND),
                    ext_header: Seq::empty(),
                    payload: payload@,
                    flags,
                    transaction_id,
                    verbatim: None,
                }),
                *final(self),
                r,
            ),
    {
        let none: [u8; 0] = [];
        proof {
            assert(none@ =~= Seq::<u8>::empty());
        }
        self.write_packet(
            PacketType(PacketType::VM_PKT_DATA_INBAND),
            none.as_slice(),
            payload,
            flags,
            transaction_id,
        )
    }

    /// Post a completion packet (`VM_PKT_COMP`, 0xB) referencing the
    /// original `transaction_id`.
    pub fn write_completion(&mut self, payload: &[u8], transaction_id: u64) -> (r: Result<bool>)
        requires
            old(self).wf(),
        ensures
            old(self).wrote(
                (OutPacket {
                    packet_type: PacketType(PacketType::VM_PKT_COMP),
                    ext_header: Seq::empty(),
                    payload: payload@,
                    flags: PacketFlags(0),
                    transaction_id,
                    verbatim: None,
                }),
                *final(self),
                r,
            ),
    {
        let none: [u8; 0] = [];
        proof {
            assert(none@ =~= Seq::<u8>::empty());
        }
        self.write_packet(
            PacketType(PacketType::VM_PKT_COMP),
            none.as_slice(),
            payload,
            PacketFlags::new(),
            transaction_id,
        )
    }

    /// Post a `VM_PKT_DATA_USING_GPA_DIRECT` (type 0x9) packet with
    /// a single-range GPA-direct extended header referencing an
    /// external, contiguous buffer via its guest PFNs.
    ///
    /// Wire layout after descriptor:
    /// ```text
    /// GpaDirectHeader { reserved: 0, range_count: 1 }
    /// GpaRange { byte_count, byte_offset }
    /// u64 pfns[]
    /// ```
    /// then the (optional) `payload` bytes, then footer.
    ///
    /// * `pfns`: page frame numbers of the external data buffer,
    ///   in order. Must not be empty.
    /// * `byte_offset`: byte offset into the first PFN's page where
    ///   the data starts (typically 0 for page-aligned buffers).
    /// * `byte_count`: total byte length of the external data. Must
    ///   be `<= pfns.len() * 4096 - byte_offset`.
    /// * `payload`: additional inline payload. Empty payload is fine.
    pub fn write_gpa_direct(
        &mut self,
        pfns: &[u64],
        byte_offset: u32,
        byte_count: u32,
        payload: &[u8],
        flags: PacketFlags,
        transaction_id: u64,
    ) -> (r: Result<bool>)
        requires
            old(self).wf(),
        ensures
            match gpa_direct_error(pfns@.len() as int, byte_offset, byte_count) {
                Some(e) => r == Err::<bool, Error>(e) && *final(self) == *old(self),
                None => old(self).wrote(
                    (OutPacket {
                        packet_type: PacketType(PacketType::VM_PKT_DATA_USING_GPA_DIRECT),
                        ext_header: gpa_direct_header(pfns@, byte_offset, byte_count),
                        payload: payload@,
                        flags,
                        transaction_id,
                        verbatim: None,
                    }),
                    *final(self),
                    r,
                ),
            },
    {
        if pfns.len() == 0 {
            return Err(Error::Parse { ty: None, reason: "write_gpa_direct requires >= 1 PFN" });
        }
        let pages: u64 = pfns.len() as u64;
        let region: u64 = match pages.checked_mul(4096) {
            Some(bytes) => bytes,
            None => u64::MAX,
        };
        if byte_offset as u64 >= region {
            return Err(
                Error::Parse {
                    ty: None,
                    reason: "write_gpa_direct byte_offset exceeds PFN range",
                },
            );
        }
        let expected_bytes: u64 = region - byte_offset as u64;
        if byte_count as u64 > expected_bytes {
            return Err(
                Error::Parse {
                    ty: None,
                    reason: "write_gpa_direct byte_count exceeds PFN range",
                },
            );
        }
        if pfns.len() > MAX_PFNS {
            return Err(
                Error::Parse {
                    ty: None,
                    reason: "write_gpa_direct pfn list too long for stack buffer",
                },
            );
        }
        let hdr = GpaDirectHeader { reserved: 0, range_count: 1 };
        let rng = GpaRange { byte_count, byte_offset };
        let mut ext = hdr.as_bytes();
        rng.write_to(&mut ext);
        wire::write_u64s(pfns, &mut ext);
        self.write_packet(
            PacketType(PacketType::VM_PKT_DATA_USING_GPA_DIRECT),
            ext.as_slice(),
            payload,
            flags,
            transaction_id,
        )
    }

    /// Post a packet of arbitrary type. `ext_header` is placed between
    /// the descriptor and payload (used e.g. for GPA-direct headers).
    ///
    /// # Return value
    ///
    /// Returns `Ok(true)` exactly when this write crossed the ring
    /// from empty to non-empty **and** the peer hasn't masked
    /// interrupts (`interrupt_mask == 0`). Callers should signal the
    /// channel **only** on that transition. Returns `Ok(false)` on a
    /// successful write that doesn't cross the transition (host already
    /// has data queued or has masked interrupts).
    pub fn write_packet(
        &mut self,
        packet_type: PacketType,
        ext_header: &[u8],
        payload: &[u8],
        flags: PacketFlags,
        transaction_id: u64,
    ) -> (r: Result<bool>)
        requires
            old(self).wf(),
        ensures
            old(self).wrote(
                (OutPacket {
                    packet_type,
                    ext_header: ext_header@,
                    payload: payload@,
                    flags,
                    transaction_id,
                    verbatim: None,
                }),
                *final(self),
                r,
            ),
    {
        self.write_framed(None, packet_type, ext_header, payload, flags, transaction_id)
    }

    /// Post `payload` behind a descriptor that the caller brings. The
    /// descriptor is written as it is, so its lengths and offsets may
    /// describe a packet that has nothing to do with the bytes that
    /// follow; the ring's own accounting goes by the bytes, never by the
    /// descriptor's fields, and stays consistent whatever they say.
    ///
    /// Returns what [`Self::write_packet`] returns.
    pub fn write_raw_packet(
        &mut self,
        descriptor: &[u8; DESCRIPTOR_SIZE],
        payload: &[u8],
    ) -> (r: Result<bool>)
        requires
            old(self).wf(),
        ensures
            old(self).wrote(packet::raw_packet(descriptor@, payload@), *final(self), r),
    {
        let none: [u8; 0] = [];
        proof {
            assert(none@ =~= Seq::<u8>::empty());
        }
        self.write_framed(
            Some(*descriptor),
            PacketType(0),
            none.as_slice(),
            payload,
            PacketFlags::new(),
            0,
        )
    }

    /// Post a packet, led by `given` where the caller brings a
    /// descriptor, and by the one that fits otherwise.
    fn write_framed(
        &mut self,
        given: Option<[u8; DESCRIPTOR_SIZE]>,
        packet_type: PacketType,
        ext_header: &[u8],
        payload: &[u8],
        flags: PacketFlags,
        transaction_id: u64,
    ) -> (r: Result<bool>)
        requires
            old(self).wf(),
        ensures
            old(self).wrote(
                (OutPacket {
                    packet_type,
                    ext_header: ext_header@,
                    payload: payload@,
                    flags,
                    transaction_id,
                    verbatim: packet::given_bytes(given),
                }),
                *final(self),
                r,
            ),
    {
        let ghost st = self.state();
        let ghost p = OutPacket {
            packet_type,
            ext_header: ext_header@,
            payload: payload@,
            flags,
            transaction_id,
            verbatim: packet::given_bytes(given),
        };
        let ghost mut acc: Seq<Access> = Seq::empty();
        let ghost mut seen = WriteSeen::of(st);
        proof {
            wire::lemma_slice_len(ext_header);
            wire::lemma_slice_len(payload);
            p.lemma_bytes(0);
            assert(self.trace() + acc =~= self.trace());
        }
        let limit: usize = 0xffff * 8;
        if ext_header.len() > limit || payload.len() > limit {
            proof {
                assert(self.did(p.write_accesses(st.len(), seen), *self));
            }
            return Err(Error::Parse { ty: None, reason: "packet too large" });
        }
        let ring_len = self.port.mem.data_len() as u32;
        // `msg_len` is what goes into `length8`; the 8-byte footer comes
        // on top of it in the ring.
        let data_offset_bytes = DESCRIPTOR_SIZE + align8(ext_header.len());
        let msg_len = data_offset_bytes + align8(payload.len());
        if msg_len > limit {
            proof {
                assert(self.did(p.write_accesses(st.len(), seen), *self));
            }
            return Err(Error::Parse { ty: None, reason: "packet too large" });
        }
        let total_ring_len = (msg_len + FOOTER_SIZE) as u32;

        // Snapshot the ring pointers.
        let write_idx = self.port.load(IDX_IN);
        let read_idx = self.port.load(IDX_OUT);
        proof {
            seen = WriteSeen { write_idx, read_idx, ..seen };
            let e = p.entry(seen);
            st.lemma_apply_push(acc, e[0]);
            acc = acc.push(e[0]);
            st.lemma_apply_push(acc, e[1]);
            acc = acc.push(e[1]);
            assert(self.trace() =~= old(self).trace() + acc);
            assert(acc =~= e);
        }
        let free = match available_free(write_idx, read_idx, ring_len) {
            Some(free) => free,
            None => {
                proof {
                    assert(old(self).did(p.write_accesses(st.len(), seen), *self));
                }
                return Err(Error::Parse { ty: None, reason: "ring index out of range" });
            },
        };
        if total_ring_len > u32::MAX - write_idx {
            proof {
                assert(old(self).did(p.write_accesses(st.len(), seen), *self));
            }
            return Err(Error::Parse { ty: None, reason: "ring index out of range" });
        }
        if free < total_ring_len {
            // Not enough room. Publish the hint, so that the reader knows
            // how much space we need before signalling us, then look
            // again: the reader may have drained before the hint was
            // there to see, and would not signal.
            self.port.store(IDX_PENDING_SEND_SZ, total_ring_len);
            let read_idx_reload = self.port.load(IDX_OUT);
            proof {
                seen = WriteSeen { read_idx_reload, ..seen };
                let h = p.hint(seen);
                st.lemma_apply_push(acc, h[0]);
                acc = acc.push(h[0]);
                st.lemma_apply_push(acc, h[1]);
                acc = acc.push(h[1]);
                assert(self.trace() =~= old(self).trace() + acc);
                assert(acc =~= p.entry(seen) + h);
            }
            let free_reload = match available_free(write_idx, read_idx_reload, ring_len) {
                Some(free) => free,
                None => {
                    proof {
                        assert(old(self).did(p.write_accesses(st.len(), seen), *self));
                    }
                    return Err(Error::Parse { ty: None, reason: "ring index out of range" });
                },
            };
            if free_reload < total_ring_len {
                // Still full. The hint stays: the reader will kick us
                // when it frees the room.
                proof {
                    assert(old(self).did(p.write_accesses(st.len(), seen), *self));
                }
                return Err(Error::RingFull);
            }
            // Space appeared after our store: no signal is needed.
            self.port.store(IDX_PENDING_SEND_SZ, 0);
            proof {
                let a = Access::Store { word: IDX_PENDING_SEND_SZ as int, value: 0 };
                st.lemma_apply_push(acc, a);
                acc = acc.push(a);
                assert(self.trace() =~= old(self).trace() + acc);
                assert(acc =~= p.entry(seen) + p.hint(seen) + seq![a]);
            }
        }
        let ghost before = acc;
        let mut bytes = match given {
            Some(descriptor) => descriptor.as_bytes(),
            None => {
                let desc = PacketDescriptor {
                    packet_type,
                    data_offset8: (data_offset_bytes / 8) as u16,
                    length8: (msg_len / 8) as u16,
                    flags,
                    transaction_id,
                };
                desc.as_bytes()
            },
        };
        push_padded(&mut bytes, ext_header);
        push_padded(&mut bytes, payload);
        let footer = Footer { reserved: 0, offset: write_idx };
        footer.write_to(&mut bytes);
        proof {
            assert(bytes@ =~= p.bytes(write_idx));
            self.state().lemma_write_shape(write_idx as int, bytes@);
        }
        self.port.write_wrapping(write_idx as usize, bytes.as_slice());

        // Publish the new write index.
        let new_write_idx = (write_idx + total_ring_len) % ring_len;
        self.port.store(IDX_IN, new_write_idx);

        // The reader was idle at that moment iff it has caught up to the
        // index we had before this write.
        let read_idx_after = self.port.load(IDX_OUT);
        let was_empty = read_idx_after == write_idx;
        let interrupt_mask = self.port.load(IDX_INTERRUPT_MASK);
        proof {
            seen = WriteSeen { read_idx_after, interrupt_mask, ..seen };
            let q = p.publish(st.len(), seen);
            st.lemma_apply_push(acc, q[0]);
            acc = acc.push(q[0]);
            st.lemma_apply_push(acc, q[1]);
            acc = acc.push(q[1]);
            st.lemma_apply_push(acc, q[2]);
            acc = acc.push(q[2]);
            st.lemma_apply_push(acc, q[3]);
            acc = acc.push(q[3]);
            assert(self.trace() =~= old(self).trace() + acc);
            assert(acc =~= before + q);
            assert(acc =~= p.write_accesses(st.len(), seen));
            assert(old(self).did(p.write_accesses(st.len(), seen), *self));
        }
        Ok(was_empty && interrupt_mask == 0)
    }
}

// ---------------------------------------------------------------------------
// Receiving
// ---------------------------------------------------------------------------
/// Reader half of a ring buffer.
///
/// A ring is a single-producer / single-consumer channel, and the reader
/// side owns the read-index publish that pairs with the writer's
/// `pending_send_sz` protocol. Reading takes the half exclusively, so
/// callers cannot share a reader.
pub struct RecvRing<M: RingMem> {
    port: Port<M>,
}

/// A packet returned by [`RecvRing::read`].
pub struct RecvPacket<'a> {
    /// Descriptor as it appears on the wire.
    pub descriptor: PacketDescriptor,
    /// Payload bytes copied out of the ring, without the descriptor,
    /// extended header, or footer.
    pub payload: &'a [u8],
    /// Length of the extended header in bytes (used by GPA-direct /
    /// transfer-page packets).
    pub ext_header_len: usize,
}

impl<M: RingMem> RecvRing<M> {
    /// What the ring's memory holds.
    pub closed spec fn state(&self) -> RingState {
        self.port.mem.state()
    }

    /// Whether no peer changes the memory.
    pub closed spec fn exclusive(&self) -> bool {
        self.port.mem.exclusive()
    }

    /// The accesses made so far.
    pub closed spec fn trace(&self) -> Seq<Access> {
        self.port.trace@
    }

    /// The backing memory.
    pub closed spec fn memory(&self) -> M {
        self.port.mem
    }

    /// The memory has the shape of a ring.
    pub open spec fn wf(&self) -> bool {
        self.state().wf()
    }

    /// `next` works on the same ring.
    pub open spec fn same_ring(self, next: Self) -> bool {
        &&& next.wf()
        &&& next.state().len() == self.state().len()
        &&& next.exclusive() == self.exclusive()
    }

    /// `self` became `next` by the accesses `acc`.
    pub open spec fn did(self, acc: Seq<Access>, next: Self) -> bool {
        &&& self.same_ring(next)
        &&& next.trace() == self.trace() + acc
        &&& self.exclusive() ==> next.state() == self.state().apply_all(acc)
    }

    /// `self` became `next` when it was asked to read into `buf_len`
    /// bytes, and gave the outcome that belongs to what it saw. Where
    /// nobody interferes, that is what the memory held.
    pub open spec fn read_as(self, buf_len: int, next: Self, out: Result<InPacket>) -> bool {
        exists|seen: ReadSeen|
            {
                &&& #[trigger] self.did(seen.read_accesses(self.state().len(), buf_len), next)
                &&& seen.shaped(self.state().len(), buf_len)
                &&& out == seen.read_result(self.state().len(), buf_len)
                &&& self.exclusive() ==> seen.read_accesses(self.state().len(), buf_len)
                    == ReadSeen::of(self.state()).read_accesses(self.state().len(), buf_len)
                &&& self.exclusive() ==> out == ReadSeen::of(self.state()).read_result(
                    self.state().len(),
                    buf_len,
                )
            }
    }

    /// Reading into `buf_len` bytes again and again gave the outcomes
    /// `outs`, one after the other, and left `next`.
    pub open spec fn read_run(self, buf_len: int, outs: Seq<Result<InPacket>>, next: Self) -> bool
        decreases outs.len(),
    {
        if outs.len() == 0 {
            next == self
        } else {
            exists|mid: Self|
                self.read_run(buf_len, outs.drop_last(), mid) && #[trigger] mid.read_as(
                    buf_len,
                    next,
                    outs.last(),
                )
        }
    }

    /// One read more.
    pub proof fn lemma_read_run_push(
        self,
        buf_len: int,
        outs: Seq<Result<InPacket>>,
        mid: Self,
        out: Result<InPacket>,
        next: Self,
    )
        requires
            self.read_run(buf_len, outs, mid),
            mid.read_as(buf_len, next, out),
        ensures
            self.read_run(buf_len, outs.push(out), next),
    {
        assert(outs.push(out).drop_last() =~= outs);
        assert(mid.read_as(buf_len, next, outs.push(out).last()));
    }

    /// `self` was just made over `mem`, which was not touched.
    pub open spec fn made_over(self, mem: M) -> bool {
        &&& self.wf()
        &&& self.state() == mem.state()
        &&& self.exclusive() == mem.exclusive()
        &&& self.trace() == Seq::<Access>::empty()
    }

    /// Construct a new recv ring over `mem`.
    pub fn new(mem: M) -> (r: Self)
        requires
            mem.state().wf(),
        ensures
            r.made_over(mem),
    {
        RecvRing { port: Port::new(mem) }
    }

    /// Backing memory.
    pub fn mem(&self) -> (r: &M)
        ensures
            *r == self.memory(),
            r.state() == self.state(),
            r.exclusive() == self.exclusive(),
    {
        &self.port.mem
    }

    /// Number of bytes available to read right now. Indices that no ring
    /// of this length can have count as nothing to read.
    pub fn available(&self) -> (r: u32)
        requires
            self.wf(),
        ensures
            exists|w: u32, o: u32|
                r == #[trigger] readable(w, o, self.state().len()) && (self.exclusive() ==> w
                    == self.state().write_idx() && o == self.state().read_idx()),
    {
        let write_idx = self.port.mem.load(IDX_IN);
        let read_idx = self.port.mem.load(IDX_OUT);
        let ring_len = self.port.mem.data_len() as u32;
        let r = match available_data(write_idx, read_idx, ring_len) {
            Some(n) => n,
            None => 0,
        };
        proof {
            assert(r == readable(write_idx, read_idx, self.state().len()));
        }
        r
    }

    /// Read one packet into `buf`. Returns `Err(Error::RingEmpty)` if
    /// no packet is available.
    ///
    /// `buf` must be at least `descriptor.length8 * 8 - FOOTER_SIZE`
    /// bytes long to hold the ext-header + payload; on a smaller buffer
    /// the read fails with [`Error::Parse`] and the packet is left
    /// pending. On success `read_index` is advanced past the packet.
    pub fn read<'a>(&mut self, buf: &'a mut [u8]) -> (r: Result<RecvPacket<'a>>)
        requires
            old(self).wf(),
        ensures
            match r {
                Ok(pkt) => {
                    &&& pkt.ext_header_len + pkt.payload@.len() <= old(buf)@.len()
                    &&& final(buf)@.skip(pkt.ext_header_len + pkt.payload@.len()) == old(buf)@.skip(
                        pkt.ext_header_len + pkt.payload@.len(),
                    )
                    &&& final(buf)@.len() == old(buf)@.len()
                    &&& pkt.payload@ == final(buf)@.subrange(
                        pkt.ext_header_len as int,
                        pkt.ext_header_len + pkt.payload@.len(),
                    )
                    &&& old(self).read_as(
                        old(buf)@.len() as int,
                        *final(self),
                        Ok(
                            InPacket {
                                descriptor: pkt.descriptor,
                                ext_header: final(buf)@.take(pkt.ext_header_len as int),
                                payload: pkt.payload@,
                            },
                        ),
                    )
                },
                Err(e) => {
                    &&& final(buf)@ == old(buf)@
                    &&& old(self).read_as(old(buf)@.len() as int, *final(self), Err(e))
                },
            },
    {
        let ghost st = self.state();
        let ghost len = st.len();
        let buf_len = buf.len();
        let ghost mut acc: Seq<Access> = Seq::empty();
        let ghost mut seen = ReadSeen {
            head: wire::zeros(16),
            body: Seq::empty(),
            ..ReadSeen::of(st)
        };
        let ring_len = self.port.mem.data_len() as u32;
        let write_idx = self.port.load(IDX_IN);
        let read_idx = self.port.load(IDX_OUT);
        proof {
            seen = ReadSeen { write_idx, read_idx, ..seen };
            let a0 = Access::Load { word: IDX_IN as int, value: write_idx };
            let a1 = Access::Load { word: IDX_OUT as int, value: read_idx };
            st.lemma_apply_push(acc, a0);
            acc = acc.push(a0);
            st.lemma_apply_push(acc, a1);
            acc = acc.push(a1);
            assert(self.trace() =~= old(self).trace() + acc);
        }
        if write_idx == read_idx {
            proof {
                assert(acc =~= seen.read_accesses(len, buf_len as int));
                assert(old(self).did(seen.read_accesses(len, buf_len as int), *self));
            }
            return Err(Error::RingEmpty);
        }
        let mut desc_bytes: [u8; 16] = [0;16];
        self.port.read_wrapping(read_idx as usize, &mut desc_bytes);
        let descriptor = PacketDescriptor::read_at(desc_bytes.as_slice(), 0);
        proof {
            seen = ReadSeen { head: desc_bytes@, ..seen };
            let a = Access::Read { off: read_idx as int, bytes: desc_bytes@ };
            st.lemma_apply_push(acc, a);
            acc = acc.push(a);
            assert(self.trace() =~= old(self).trace() + acc);
            assert(desc_bytes@.subrange(0, 16) =~= desc_bytes@);
            wire::lemma_decoded(descriptor);
            assert(self.exclusive() ==> seen.head == ReadSeen::of(st).head);
        }
        // `length8` leaves the footer out; the reader advances over it.
        let msg_len = descriptor.length8 as usize * 8;
        let data_offset_bytes = descriptor.data_offset8 as usize * 8;
        let total_ring_len = (msg_len + FOOTER_SIZE) as u32;
        let available = match available_data(write_idx, read_idx, ring_len) {
            Some(n) => n,
            None => 0,
        };
        if msg_len < data_offset_bytes || data_offset_bytes < DESCRIPTOR_SIZE || total_ring_len
            > available || total_ring_len > u32::MAX - read_idx {
            proof {
                assert(seen.bad_length(len));
                assert(acc =~= seen.read_accesses(len, buf_len as int));
                assert(old(self).did(seen.read_accesses(len, buf_len as int), *self));
            }
            return Err(Error::Parse { ty: None, reason: "descriptor length out of range" });
        }
        if buf_len < msg_len - FOOTER_SIZE {
            proof {
                assert(acc =~= seen.read_accesses(len, buf_len as int));
                assert(old(self).did(seen.read_accesses(len, buf_len as int), *self));
            }
            return Err(
                Error::Parse { ty: None, reason: "recv buffer smaller than packet payload" },
            );
        }
        let ext_header_len = data_offset_bytes - DESCRIPTOR_SIZE;
        let needed = msg_len - DESCRIPTOR_SIZE;
        let (body, _rest) = buf.split_at_mut(needed);
        self.port.read_wrapping(read_idx as usize + DESCRIPTOR_SIZE, body);
        let ghost got = body@;
        let new_read_idx = (read_idx + total_ring_len) % ring_len;
        self.port.store(IDX_OUT, new_read_idx);
        proof {
            seen = ReadSeen { body: got, ..seen };
            let a0 = Access::Read { off: read_idx + 16, bytes: got };
            let a1 = Access::Store { word: IDX_OUT as int, value: new_read_idx };
            st.lemma_apply_push(acc, a0);
            acc = acc.push(a0);
            st.lemma_apply_push(acc, a1);
            acc = acc.push(a1);
            assert(self.trace() =~= old(self).trace() + acc);
            assert(acc =~= seen.read_accesses(len, buf_len as int));
            assert(old(self).did(seen.read_accesses(len, buf_len as int), *self));
            assert(buf@.take(ext_header_len as int) =~= got.take(ext_header_len as int));
            assert(buf@.subrange(ext_header_len as int, needed as int) =~= got.skip(
                ext_header_len as int,
            ));
            assert(buf@.skip(needed as int) =~= old(buf)@.skip(needed as int));
        }
        Ok(RecvPacket { descriptor, payload: &buf[ext_header_len..needed], ext_header_len })
    }

    /// Mask host to guest signalling.
    pub fn set_interrupt_mask(&mut self, masked: bool)
        requires
            old(self).wf(),
        ensures
            old(self).did(
                seq![
                    Access::Store {
                        word: IDX_INTERRUPT_MASK as int,
                        value: if masked {
                            1
                        } else {
                            0
                        },
                    },
                ],
                *final(self),
            ),
    {
        let value: u32 = if masked {
            1
        } else {
            0
        };
        let ghost a = Access::Store { word: IDX_INTERRUPT_MASK as int, value };
        self.port.store(IDX_INTERRUPT_MASK, value);
        proof {
            old(self).state().lemma_apply_push(Seq::empty(), a);
            assert(Seq::empty().push(a) =~= seq![a]);
            assert(self.trace() =~= old(self).trace() + seq![a]);
        }
    }

    /// Set the pending-send-size word of the ring's control page.
    pub fn set_pending_send_size(&mut self, size: u32)
        requires
            old(self).wf(),
        ensures
            old(self).did(
                seq![Access::Store { word: IDX_PENDING_SEND_SZ as int, value: size }],
                *final(self),
            ),
    {
        let ghost a = Access::Store { word: IDX_PENDING_SEND_SZ as int, value: size };
        self.port.store(IDX_PENDING_SEND_SZ, size);
        proof {
            old(self).state().lemma_apply_push(Seq::empty(), a);
            assert(Seq::empty().push(a) =~= seq![a]);
            assert(self.trace() =~= old(self).trace() + seq![a]);
        }
    }

    /// Whether the ring's **writer** (the host, for a RecvRing) has
    /// advertised support for the `pending_send_sz` protocol. When
    /// this is false, we should not perform the reader-side signal
    /// decision: the host won't be listening.
    pub fn supports_pending_send_size(&self) -> (r: bool)
        requires
            self.wf(),
        ensures
            self.exclusive() ==> r == (self.state().words[IDX_FEATURE_BITS as int]
                & FEATURE_SUPPORTS_PENDING_SEND_SIZE != 0),
    {
        let bits = self.port.mem.load(IDX_FEATURE_BITS);
        bits & FEATURE_SUPPORTS_PENDING_SEND_SIZE != 0
    }

    /// Read the writer's current pending-send-size hint. Non-zero
    /// means the writer is blocked waiting for at least this many
    /// free bytes.
    pub fn pending_send_size(&self) -> (r: u32)
        requires
            self.wf(),
        ensures
            self.exclusive() ==> r == self.state().words[IDX_PENDING_SEND_SZ as int],
    {
        self.port.mem.load(IDX_PENDING_SEND_SZ)
    }

    /// Compute the signal decision for a batch of reads that
    /// advanced `read_index` by `bytes_read`. This is the
    /// reader-side half of the `pending_send_sz` protocol: the
    /// peer writer parks itself and posts a `pending_send_sz`
    /// hint (in bytes) when its ring is full; we drain, compute
    /// how much space is now free, and signal the writer only on
    /// the transition from "not enough free space" to "enough
    /// free space".
    ///
    /// Call this **after** all reads in a batch have completed and
    /// `read_index` has been published.
    ///
    /// `bytes_read` is the difference between the pre-drain and
    /// post-drain `read_index` (mod ring length). Callers can obtain
    /// it by snapshotting `mem().control()` before their first read.
    pub fn drain_signal_decision(&self, bytes_read: u32) -> (r: SignalDecision)
        requires
            self.wf(),
        ensures
            exists|features: u32, pending: u32, w: u32, o: u32|
                {
                    &&& r == signal_spec(
                        features,
                        pending,
                        #[trigger] free_opt(w, o, self.state().len()),
                        bytes_read,
                    )
                    &&& #[trigger] saw(features, pending)
                    &&& self.exclusive() ==> features
                        == self.state().words[IDX_FEATURE_BITS as int] && pending
                        == self.state().words[IDX_PENDING_SEND_SZ as int] && w
                        == self.state().write_idx() && o == self.state().read_idx()
                },
    {
        let features = self.port.mem.load(IDX_FEATURE_BITS);
        let pending = self.port.mem.load(IDX_PENDING_SEND_SZ);
        let ring_len = self.port.mem.data_len() as u32;
        let write_idx = self.port.mem.load(IDX_IN);
        let read_idx = self.port.mem.load(IDX_OUT);
        let free = available_free(write_idx, read_idx, ring_len);
        proof {
            assert(free == free_opt(write_idx, read_idx, self.state().len()));
            assert(saw(features, pending));
        }
        if features & FEATURE_SUPPORTS_PENDING_SEND_SIZE == 0 || pending == 0 {
            return SignalDecision::NoSignal;
        }
        match free {
            Some(new_free) => signal_on_crossing(pending, new_free, bytes_read),
            None => SignalDecision::NoSignal,
        }
    }
}

/// Names a pair of control words that a decision rests on.
pub open spec fn saw(features: u32, pending: u32) -> bool {
    true
}

/// Bytes to read between indices `w` and `o`.
pub open spec fn readable(w: u32, o: u32, len: int) -> u32 {
    match data_opt(w, o, len) {
        Some(n) => n,
        None => 0,
    }
}

/// Decision returned by [`RecvRing::drain_signal_decision`] after
/// draining packets from the RECV ring.
#[derive(Copy, Clone, Debug, Eq, PartialEq, Structural)]
pub enum SignalDecision {
    /// The peer (host) is blocked writing and just crossed from
    /// "not enough space" to "enough space". The caller should signal
    /// the channel to wake it.
    Signal,
    /// No signal is needed: the writer isn't blocked, doesn't
    /// support the protocol, or hasn't crossed the transition.
    NoSignal,
}

/// The decision for a reader that sees these feature bits, this hint and
/// this much free space after it read `bytes_read` bytes.
pub open spec fn signal_spec(
    features: u32,
    pending: u32,
    new_free: Option<u32>,
    bytes_read: u32,
) -> SignalDecision {
    if features & FEATURE_SUPPORTS_PENDING_SEND_SIZE == 0 || pending == 0 || new_free is None {
        SignalDecision::NoSignal
    } else {
        crossing_spec(pending, new_free->0, bytes_read)
    }
}

/// Signal exactly when the space was too small before the read and is
/// large enough after it.
pub open spec fn crossing_spec(pending: u32, new_free: u32, bytes_read: u32) -> SignalDecision {
    let old_free: int = if new_free >= bytes_read {
        new_free - bytes_read
    } else {
        0
    };
    if old_free < pending && new_free >= pending {
        SignalDecision::Signal
    } else {
        SignalDecision::NoSignal
    }
}

/// Decide whether a blocked writer that waits for `pending` free bytes
/// has to be woken, once `bytes_read` bytes were read and `new_free` are
/// free.
pub fn signal_on_crossing(pending: u32, new_free: u32, bytes_read: u32) -> (r: SignalDecision)
    ensures
        r == crossing_spec(pending, new_free, bytes_read),
{
    let old_free = new_free.saturating_sub(bytes_read);
    if old_free < pending && new_free >= pending {
        SignalDecision::Signal
    } else {
        SignalDecision::NoSignal
    }
}

/// Law: of a run of drains, exactly the one that makes room for a blocked
/// writer signals it: draining once more, with the space already there,
/// does not.
pub proof fn law_signal_once(pending: u32, free_before: u32, first: u32, second: u32)
    requires
        pending > 0,
        free_before + first + second <= u32::MAX,
        free_before < pending,
        pending <= free_before + first,
        second > 0,
    ensures
        crossing_spec(pending, (free_before + first) as u32, first) == SignalDecision::Signal,
        crossing_spec(pending, (free_before + first + second) as u32, second)
            == SignalDecision::NoSignal,
{
}

/// Law: where nobody interferes, one read after the other gives the packets
/// of the queue in order, each once, and then finds the ring empty; the
/// packets that were not read stay.
pub proof fn law_reads_in_order<M: RingMem>(
    ring: RecvRing<M>,
    ps: Seq<QueuedPacket>,
    buf_len: int,
    outs: Seq<Result<InPacket>>,
    next: RecvRing<M>,
)
    requires
        ring.exclusive(),
        packet::holds(ring.state(), ps),
        forall|i: int|
            0 <= i < ps.len() ==> (#[trigger] ps[i]).descriptor.length8 * 8 - 8 <= buf_len,
        ring.read_run(buf_len, outs, next),
    ensures
        next.exclusive(),
        packet::holds(
            next.state(),
            ps.skip(
                if outs.len() <= ps.len() {
                    outs.len() as int
                } else {
                    ps.len() as int
                },
            ),
        ),
        forall|i: int|
            0 <= i < outs.len() ==> #[trigger] outs[i] == (if i < ps.len() {
                Ok::<InPacket, Error>(ps[i].received())
            } else {
                Err::<InPacket, Error>(Error::RingEmpty)
            }),
    decreases outs.len(),
{
    if outs.len() == 0 {
        assert(ps.skip(0) =~= ps);
    } else {
        let n = outs.len() - 1;
        let last = outs.last();
        let mid = choose|mid: RecvRing<M>|
            ring.read_run(buf_len, outs.drop_last(), mid) && #[trigger] mid.read_as(
                buf_len,
                next,
                outs.last(),
            );
        law_reads_in_order(ring, ps, buf_len, outs.drop_last(), mid);
        let s = mid.state();
        if n < ps.len() {
            let rest = ps.skip(n);
            assert(rest[0] == ps[n]);
            packet::law_read_dequeues(s, rest, buf_len);
            assert(rest.drop_first() =~= ps.skip(n + 1));
        } else {
            assert(ps.skip(ps.len() as int) =~= Seq::empty());
            packet::law_read_empty(s, buf_len);
        }
        assert forall|i: int| 0 <= i < outs.len() implies #[trigger] outs[i] == (if i < ps.len() {
            Ok::<InPacket, Error>(ps[i].received())
        } else {
            Err::<InPacket, Error>(Error::RingEmpty)
        }) by {
            if i < n {
                assert(outs[i] == outs.drop_last()[i]);
            }
        }
    }
}

} // verus!
