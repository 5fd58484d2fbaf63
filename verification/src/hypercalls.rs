//! Thin wrappers around the hypercalls used by the vmbus protocol:
//! `HvCallPostMessage` (0x5C), `HvCallSignalEvent` (0x5D), and
//! `HvCallSetVpRegisters` (0x51).
//!
//! The platform makes the calls ([`HypercallTrait`]); this library
//! contributes the payload encoders and the retry policy. [`HvCtx`]
//! carries the platform together with a ghost record of everything that
//! was asked of it, hypercalls and accesses to the message page alike, and
//! of what it answered. The contracts speak of that record, and
//! [`HvCtx::ran_to`] holds it against the platform: what the record grows
//! by is what brought the platform from one state to the next.
use crate::error::Error;
use crate::error::Result;
use crate::error::TmkError;
use crate::hv::GetSetVpRegisters;
use crate::hv::HvInputVtl;
use crate::hv::HvRegisterAssoc;
use crate::hv::HvRegisterName;
use crate::hv::HvRegisterValue;
use crate::hv::SignalEvent;
use crate::hv::HV_CALL_GET_VP_REGISTERS;
use crate::hv::HV_CALL_POST_MESSAGE;
use crate::hv::HV_CALL_SET_VP_REGISTERS;
use crate::hv::HV_CALL_SIGNAL_EVENT;
use crate::hv::HV_PARTITION_ID_SELF;
use crate::hv::HV_VP_INDEX_SELF;
use crate::message::CompletionKey;
use crate::protocol::HV_MESSAGE_PAYLOAD_SIZE;
use crate::protocol::HV_MESSAGE_SIZE;
use crate::protocol::HV_MESSAGE_TYPE_CHANNEL;
use crate::wire;
use crate::wire::Wire;
use vstd::prelude::*;

verus! {

/// How a hypercall is made.
#[derive(Copy, Clone, Debug, PartialEq, Eq)]
pub struct HypercallConfig {
    /// Number of repetitions, for calls that repeat.
    pub rep_count: Option<usize>,
    /// Whether the input travels in registers.
    pub fast_call: bool,
}

impl Default for HypercallConfig {
    fn default() -> (r: Self)
        ensures
            r.rep_count is None,
            !r.fast_call,
    {
        HypercallConfig { rep_count: None, fast_call: false }
    }
}

/// The platform, as far as its message page is concerned. The relations
/// say what an implementation reads and writes.
pub trait SimpMem: Sized {
    /// Reading the slot at `gpa` gives `bytes` and leaves `next`. By
    /// default nothing is known of it.
    open spec fn slot_reads(self, gpa: u64, bytes: Seq<u8>, next: Self) -> bool {
        true
    }

    /// Clearing the slot at `gpa` leaves `next`. By default nothing is
    /// known of it.
    open spec fn slot_cleared(self, gpa: u64, next: Self) -> bool {
        true
    }

    /// The [`HV_MESSAGE_SIZE`] bytes at `gpa`.
    fn read_message_slot(&mut self, gpa: u64) -> (r: Vec<u8>)
        ensures
            old(self).slot_reads(gpa, r@, *final(self)),
    ;

    /// Write `HvMessageTypeNone` to the type field of the slot at `gpa`.
    fn clear_message_slot(&mut self, gpa: u64)
        ensures
            old(self).slot_cleared(gpa, *final(self)),
    ;
}

/// A page image that starts at address 0.
impl SimpMem for Vec<u8> {
    open spec fn slot_reads(self, gpa: u64, bytes: Seq<u8>, next: Self) -> bool {
        &&& next == self
        &&& bytes == if gpa + HV_MESSAGE_SIZE <= self@.len() {
            self@.subrange(gpa as int, gpa + HV_MESSAGE_SIZE)
        } else {
            Seq::empty()
        }
    }

    open spec fn slot_cleared(self, gpa: u64, next: Self) -> bool {
        next@ == if gpa + HV_MESSAGE_SIZE <= self@.len() {
            self@.take(gpa as int) + wire::zeros(4) + self@.skip(gpa + 4)
        } else {
            self@
        }
    }

    fn read_message_slot(&mut self, gpa: u64) -> (r: Vec<u8>) {
        let mut out: Vec<u8> = Vec::new();
        let len = self.len();
        if len >= HV_MESSAGE_SIZE && gpa <= (len - HV_MESSAGE_SIZE) as u64 {
            let at = gpa as usize;
            out.extend_from_slice(&self.as_slice()[at..at + HV_MESSAGE_SIZE]);
            proof {
                assert(out@ =~= self@.subrange(gpa as int, gpa + HV_MESSAGE_SIZE));
            }
        }
        out
    }

    fn clear_message_slot(&mut self, gpa: u64) {
        let len = self.len();
        if len >= HV_MESSAGE_SIZE && gpa <= (len - HV_MESSAGE_SIZE) as u64 {
            let at = gpa as usize;
            self[at] = 0;
            self[at + 1] = 0;
            self[at + 2] = 0;
            self[at + 3] = 0;
            proof {
                assert(self@ =~= old(self)@.take(gpa as int) + wire::zeros(4) + old(self)@.skip(
                    gpa + 4,
                ));
            }
        }
    }
}

/// The platform's way into the hypervisor: its calls, and the message page
/// ([`SimpMem`]) that it fills. The relations say what an implementation
/// does.
pub trait HypercallTrait: SimpMem {
    /// Making `call`, and getting the reply in it, leaves `next`. By
    /// default nothing is known of it.
    open spec fn called(self, call: HvCall, next: Self) -> bool {
        true
    }

    /// Make hypercall `code` with `input`; what it returns goes to
    /// `output`.
    fn hypercall(
        &mut self,
        code: u64,
        input: &[u8],
        output: &mut [u8],
        cfg: HypercallConfig,
    ) -> (r: core::result::Result<(), TmkError>)
        ensures
            final(output)@.len() == old(output)@.len(),
            old(self).called(
                (HvCall {
                    code,
                    input: input@,
                    output_len: old(output)@.len(),
                    rep_count: cfg.rep_count,
                    fast_call: cfg.fast_call,
                    reply: match r {
                        Ok(_) => Ok(final(output)@),
                        Err(e) => Err(e),
                    },
                }),
                *final(self),
            ),
    ;
}

/// A hypercall that was made, with the hypervisor's answer.
#[verifier::ext_equal]
pub struct HvCall {
    pub code: u64,
    pub input: Seq<u8>,
    pub output_len: nat,
    pub rep_count: Option<usize>,
    pub fast_call: bool,
    pub reply: core::result::Result<Seq<u8>, TmkError>,
}

impl HvCall {
    /// The call is this one.
    pub open spec fn is(
        self,
        code: u64,
        input: Seq<u8>,
        output_len: nat,
        rep_count: Option<usize>,
        fast_call: bool,
    ) -> bool {
        &&& self.code == code
        &&& self.input == input
        &&& self.output_len == output_len
        &&& self.rep_count == rep_count
        &&& self.fast_call == fast_call
        &&& self.reply matches Ok(bytes) ==> bytes.len() == output_len
    }

    /// What the answer means to a caller that expects nothing back.
    pub open spec fn result(self) -> Result<()> {
        match self.reply {
            Ok(_) => Ok(()),
            Err(e) => Err(Error::Hypercall(e)),
        }
    }
}

/// Something that was asked of the hypervisor or the host.
pub enum HvEvent {
    /// A hypercall.
    Call(HvCall),
    /// The message slot at `gpa` was read.
    SlotRead { gpa: u64, bytes: Seq<u8> },
    /// The message slot at `gpa` was given back to the hypervisor.
    SlotCleared { gpa: u64 },
    /// A message was posted, with as many attempts as it took.
    Posted { connection_id: u32, payload: Seq<u8>, calls: Seq<HvCall>, result: Result<()> },
    /// The message page was drained until the completion for `key`
    /// arrived or the drain gave up: the messages that were routed, what
    /// was asked of the hypervisor meanwhile, how the drain ended, and
    /// the completion's bytes.
    Polled {
        key: CompletionKey,
        messages: Seq<Seq<u8>>,
        during: Seq<HvEvent>,
        result: Result<()>,
        response: Option<Seq<u8>>,
    },
}

impl HvEvent {
    /// `payload` was posted to `connection_id`, with this result.
    pub open spec fn is_post(self, connection_id: u32, payload: Seq<u8>, result: Result<()>) -> bool {
        &&& self matches HvEvent::Posted { connection_id: c, payload: p, calls, result: r }
        &&& c == connection_id
        &&& p == payload
        &&& r == result
        &&& post_went(c, p, calls, r)
    }
}

/// What a hypercall came to.
pub open spec fn call_result(ev: HvEvent) -> Result<()> {
    match ev {
        HvEvent::Call(c) => c.result(),
        _ => Ok(()),
    }
}

/// `new` is `old` and one event more.
pub open spec fn one_more(old_log: Seq<HvEvent>, new_log: Seq<HvEvent>) -> bool {
    &&& new_log.len() == old_log.len() + 1
    &&& new_log.drop_last() == old_log
}

/// The calls `calls`, one after the other, bring the platform from `a` to
/// `b`.
pub open spec fn went_through<C: HypercallTrait>(a: C, calls: Seq<HvCall>, b: C) -> bool
    decreases calls.len(),
{
    if calls.len() == 0 {
        b == a
    } else {
        exists|mid: C|
            went_through(a, calls.drop_last(), mid) && #[trigger] mid.called(calls.last(), b)
    }
}

/// What the event says was asked of the platform brings it from `a` to
/// `b`.
pub open spec fn step<C: HypercallTrait>(a: C, ev: HvEvent, b: C) -> bool
    decreases ev,
{
    match ev {
        HvEvent::Call(call) => a.called(call, b),
        HvEvent::SlotRead { gpa, bytes } => a.slot_reads(gpa, bytes, b),
        HvEvent::SlotCleared { gpa } => a.slot_cleared(gpa, b),
        HvEvent::Posted { calls, .. } => went_through(a, calls, b),
        HvEvent::Polled { during, .. } => ran(a, during, b),
    }
}

/// What the events `evs` say was asked of the platform, one after the
/// other, brings it from `a` to `b`.
pub open spec fn ran<C: HypercallTrait>(a: C, evs: Seq<HvEvent>, b: C) -> bool
    decreases evs,
{
    if evs.len() == 0 {
        b == a
    } else {
        exists|mid: C| #[trigger]
            via(mid) && ran(a, evs.subrange(0, evs.len() - 1), mid) && step(
                mid,
                evs[evs.len() - 1],
                b,
            )
    }
}

/// A platform on the way.
pub open spec fn via<C>(mid: C) -> bool {
    true
}

/// One event.
pub proof fn lemma_ran_one<C: HypercallTrait>(a: C, ev: HvEvent, b: C)
    requires
        step(a, ev, b),
    ensures
        ran(a, seq![ev], b),
{
    let evs = seq![ev];
    assert(evs.subrange(0, 0) =~= Seq::<HvEvent>::empty());
    assert(ran(a, evs.subrange(0, 0), a));
    assert(via(a));
}

/// One run of events after the other.
pub proof fn lemma_ran<C: HypercallTrait>(
    a: C,
    first: Seq<HvEvent>,
    mid: C,
    second: Seq<HvEvent>,
    b: C,
)
    requires
        ran(a, first, mid),
        ran(mid, second, b),
    ensures
        ran(a, first + second, b),
    decreases second.len(),
{
    if second.len() == 0 {
        assert(first + second =~= first);
    } else {
        let n = second.len() - 1;
        let all = first + second;
        let last = choose|last: C| #[trigger]
            via(last) && ran(mid, second.subrange(0, n), last) && step(last, second[n], b);
        lemma_ran(a, first, mid, second.subrange(0, n), last);
        assert(all.subrange(0, all.len() - 1) =~= first + second.subrange(0, n));
        assert(via(last));
    }
}

/// The platform together with the record of what was asked of it.
pub struct HvCtx<C> {
    inner: C,
    log: Ghost<Seq<HvEvent>>,
}

impl<C> HvCtx<C> {
    /// Everything asked so far.
    pub closed spec fn log(&self) -> Seq<HvEvent> {
        self.log@
    }

    /// The platform that is asked.
    pub closed spec fn platform(&self) -> C {
        self.inner
    }

    /// Start a record.
    pub fn new(inner: C) -> (r: Self)
        ensures
            r.platform() == inner,
            r.log() == Seq::<HvEvent>::empty(),
    {
        HvCtx { inner, log: Ghost(Seq::empty()) }
    }

    /// The platform.
    pub fn inner(&self) -> (r: &C)
        ensures
            *r == self.platform(),
    {
        &self.inner
    }
}

impl<C: HypercallTrait> HvCtx<C> {
    /// `self` became `next`: the record has grown, and what it grew by is
    /// what brought the platform from where it was to where it is.
    #[verifier::opaque]
    pub open spec fn ran_to(self, next: HvCtx<C>) -> bool {
        &&& self.log().is_prefix_of(next.log())
        &&& ran(self.platform(), next.log().skip(self.log().len() as int), next.platform())
    }

    /// The record started with the platform as `start`, and is what brought
    /// it from there to where it is.
    pub open spec fn since(self, start: C) -> bool {
        ran(start, self.log(), self.platform())
    }

    /// A record from its start on.
    pub(crate) proof fn lemma_since(first: HvCtx<C>, next: HvCtx<C>)
        requires
            first.log() == Seq::<HvEvent>::empty(),
            first.ran_to(next),
        ensures
            next.since(first.platform()),
    {
        reveal(HvCtx::ran_to);
        assert(next.log().skip(0) =~= next.log());
    }

    /// One more event.
    pub(crate) proof fn lemma_ran_event(a: HvCtx<C>, ev: HvEvent, b: HvCtx<C>)
        requires
            b.log() == a.log().push(ev),
            step(a.platform(), ev, b.platform()),
        ensures
            a.ran_to(b),
    {
        reveal(HvCtx::ran_to);
        assert(b.log().skip(a.log().len() as int) =~= seq![ev]);
        lemma_ran_one(a.platform(), ev, b.platform());
    }

    /// What [`Self::ran_to`] says, spelled out.
    pub proof fn lemma_ran_to(a: HvCtx<C>, b: HvCtx<C>)
        requires
            a.ran_to(b),
        ensures
            a.log().is_prefix_of(b.log()),
            ran(a.platform(), b.log().skip(a.log().len() as int), b.platform()),
    {
        reveal(HvCtx::ran_to);
    }

    /// Put one event in place of those since `from`. It has to be one that
    /// brought the platform from there to here.
    pub(crate) fn condense(&mut self, Ghost(from): Ghost<HvCtx<C>>, Ghost(ev): Ghost<HvEvent>)
        requires
            from.ran_to(*old(self)),
            step(from.platform(), ev, old(self).platform()),
        ensures
            final(self).platform() == old(self).platform(),
            final(self).log() == from.log().push(ev),
            from.ran_to(*final(self)),
    {
        self.log = Ghost(from.log().push(ev));
        proof {
            HvCtx::lemma_ran_event(from, ev, *self);
        }
    }

    /// Read the message slot at `gpa` and record it.
    pub fn read_message_slot(&mut self, gpa: u64) -> (r: Vec<u8>)
        ensures
            old(self).ran_to(*final(self)),
            final(self).log() == old(self).log().push(HvEvent::SlotRead { gpa, bytes: r@ }),
    {
        let bytes = self.inner.read_message_slot(gpa);
        let ghost ev = HvEvent::SlotRead { gpa, bytes: bytes@ };
        self.log = Ghost(self.log@.push(ev));
        proof {
            HvCtx::lemma_ran_event(*old(self), ev, *self);
        }
        bytes
    }

    /// Give the message slot at `gpa` back to the hypervisor and record it.
    pub fn clear_message_slot(&mut self, gpa: u64)
        ensures
            old(self).ran_to(*final(self)),
            final(self).log() == old(self).log().push(HvEvent::SlotCleared { gpa }),
    {
        self.inner.clear_message_slot(gpa);
        let ghost ev = HvEvent::SlotCleared { gpa };
        self.log = Ghost(self.log@.push(ev));
        proof {
            HvCtx::lemma_ran_event(*old(self), ev, *self);
        }
    }

    /// Make a hypercall and record it.
    pub fn call(&mut self, code: u64, input: &[u8], output: &mut [u8], cfg: HypercallConfig) -> (r:
        core::result::Result<(), TmkError>)
        ensures
            old(self).ran_to(*final(self)),
            old(self).platform().called(final(self).log().last()->Call_0, final(self).platform()),
            final(output)@.len() == old(output)@.len(),
            final(self).log() == old(self).log().push(
                HvEvent::Call(
                    HvCall {
                        code,
                        input: input@,
                        output_len: old(output)@.len(),
                        rep_count: cfg.rep_count,
                        fast_call: cfg.fast_call,
                        reply: match r {
                            Ok(_) => Ok(final(output)@),
                            Err(e) => Err(e),
                        },
                    },
                ),
            ),
    {
        let ghost output_len = output@.len();
        let r = self.inner.hypercall(code, input, output, cfg);
        let ghost ev = HvEvent::Call(
            HvCall {
                code,
                input: input@,
                output_len,
                rep_count: cfg.rep_count,
                fast_call: cfg.fast_call,
                reply: match r {
                    Ok(_) => Ok(output@),
                    Err(e) => Err(e),
                },
            },
        );
        self.log = Ghost(self.log@.push(ev));
        proof {
            HvCtx::lemma_ran_event(*old(self), ev, *self);
        }
        r
    }
}

/// Nothing asked, nothing changed.
pub broadcast proof fn lemma_ran_nowhere<C: HypercallTrait>(a: HvCtx<C>)
    ensures
        #[trigger] a.ran_to(a),
{
    reveal(HvCtx::ran_to);
    assert(a.log().skip(a.log().len() as int) =~= Seq::<HvEvent>::empty());
}

/// One stretch of the record after the other.
pub broadcast proof fn lemma_ran_on<C: HypercallTrait>(a: HvCtx<C>, b: HvCtx<C>, c: HvCtx<C>)
    requires
        #[trigger] a.ran_to(b),
        #[trigger] b.ran_to(c),
    ensures
        a.ran_to(c),
{
    reveal(HvCtx::ran_to);
    let first = b.log().skip(a.log().len() as int);
    let second = c.log().skip(b.log().len() as int);
    assert forall|i: int| 0 <= i < b.log().len() implies b.log()[i] == c.log()[i] by {}
    assert(c.log().skip(a.log().len() as int) =~= first + second);
    lemma_ran(a.platform(), first, b.platform(), second, c.platform());
}

/// How stretches of the record compose.
pub broadcast group group_ran {
    lemma_ran_nowhere,
    lemma_ran_on,
}

// ---------------------------------------------------------------------------
// Posting messages
// ---------------------------------------------------------------------------
/// Number of attempts (including the first) before giving up on a
/// transient `post_message` failure.
pub const POST_MESSAGE_MAX_RETRIES: usize = 100;

/// Base spin-loop iterations between `post_message` retries. The
/// backoff doubles up to [`POST_MESSAGE_BACKOFF_MAX_SHIFT`] and then
/// caps out.
pub const POST_MESSAGE_BACKOFF_ITERS: usize = 10_000;

/// Cap on the exponential-backoff shift.
pub const POST_MESSAGE_BACKOFF_MAX_SHIFT: usize = 12;

/// The part of a message that fits.
pub open spec fn truncated(payload: Seq<u8>) -> Seq<u8> {
    if payload.len() <= HV_MESSAGE_PAYLOAD_SIZE {
        payload
    } else {
        payload.take(HV_MESSAGE_PAYLOAD_SIZE as int)
    }
}

/// Input of `HvCallPostMessage`: connection, a zero word, the message
/// type, the payload's length, and the payload in a field of fixed size.
pub open spec fn post_input(connection_id: u32, payload: Seq<u8>) -> Seq<u8> {
    let p = truncated(payload);
    connection_id.wire() + 0u32.wire() + HV_MESSAGE_TYPE_CHANNEL.wire() + (p.len() as u32).wire() + p
        + wire::zeros((HV_MESSAGE_PAYLOAD_SIZE - p.len()) as nat)
}

/// The failures that a post is tried again after.
pub open spec fn transient(e: TmkError) -> bool {
    e == TmkError::InsufficientBuffers || e == TmkError::InsufficientMemory
}

/// Posting `payload` made the calls `calls` and ended in `result`: the
/// same request each time, again after every transient failure, at most
/// [`POST_MESSAGE_MAX_RETRIES`] times.
pub open spec fn post_went(
    connection_id: u32,
    payload: Seq<u8>,
    calls: Seq<HvCall>,
    result: Result<()>,
) -> bool {
    &&& 1 <= calls.len() <= POST_MESSAGE_MAX_RETRIES
    &&& forall|i: int|
        0 <= i < calls.len() ==> (#[trigger] calls[i]).is(
            HV_CALL_POST_MESSAGE,
            post_input(connection_id, payload),
            0,
            None,
            false,
        )
    &&& forall|i: int|
        0 <= i < calls.len() - 1 ==> ((#[trigger] calls[i]).reply matches Err(e) && transient(e))
    &&& match calls.last().reply {
        Ok(_) => result == Ok::<(), Error>(()),
        Err(e) => if transient(e) {
            &&& calls.len() == POST_MESSAGE_MAX_RETRIES
            &&& result == Err::<(), Error>(Error::Hypercall(TmkError::InsufficientBuffers))
        } else {
            result == Err::<(), Error>(Error::Hypercall(e))
        },
    }
}

/// Two to the power of `n`.
pub open spec fn doubled(n: nat) -> nat
    decreases n,
{
    if n == 0 {
        1
    } else {
        2 * doubled((n - 1) as nat)
    }
}

/// Number of idle iterations after failed attempt number `attempt`,
/// counting from 0: doubling each time, up to a cap.
pub fn backoff_iters(attempt: usize) -> (r: usize)
    ensures
        r == POST_MESSAGE_BACKOFF_ITERS * doubled(
            if attempt <= POST_MESSAGE_BACKOFF_MAX_SHIFT {
                attempt as nat
            } else {
                POST_MESSAGE_BACKOFF_MAX_SHIFT as nat
            },
        ),
{
    let shift: usize = if attempt <= POST_MESSAGE_BACKOFF_MAX_SHIFT {
        attempt
    } else {
        POST_MESSAGE_BACKOFF_MAX_SHIFT
    };
    let mut factor: usize = 1;
    let mut i: usize = 0;
    while i < shift
        invariant
            i <= shift <= 12,
            factor == doubled(i as nat),
            doubled(i as nat) <= 4096,
        decreases shift - i,
    {
        proof {
            reveal_with_fuel(doubled, 13);
        }
        factor = factor * 2;
        i += 1;
    }
    POST_MESSAGE_BACKOFF_ITERS * factor
}

/// `core::hint::spin_loop`: tells the processor that the caller is
/// waiting. It returns nothing, and nothing is claimed of it.
#[verifier::external_body]
pub(crate) fn spin_once() {
    core::hint::spin_loop()
}

/// Idle for `iters` iterations.
fn idle(iters: usize) {
    let mut i: usize = 0;
    while i < iters
        decreases iters - i,
    {
        spin_once();
        i += 1;
    }
}

/// The input of a post, built.
fn build_post_input(connection_id: u32, payload: &[u8]) -> (r: Vec<u8>)
    ensures
        r@ == post_input(connection_id, payload@),
{
    let used: usize = if payload.len() <= HV_MESSAGE_PAYLOAD_SIZE {
        payload.len()
    } else {
        HV_MESSAGE_PAYLOAD_SIZE
    };
    let kept = &payload[0..used];
    proof {
        assert(kept@ =~= truncated(payload@));
    }
    let mut out: Vec<u8> = connection_id.as_bytes();
    let padding: u32 = 0;
    padding.write_to(&mut out);
    HV_MESSAGE_TYPE_CHANNEL.write_to(&mut out);
    let size: u32 = used as u32;
    size.write_to(&mut out);
    out.extend_from_slice(kept);
    let ghost body = out@;
    let mut i: usize = used;
    proof {
        assert(out@ =~= body + wire::zeros(0));
    }
    while i < HV_MESSAGE_PAYLOAD_SIZE
        invariant
            used <= i <= HV_MESSAGE_PAYLOAD_SIZE,
            out@ == body + wire::zeros((i - used) as nat),
        decreases HV_MESSAGE_PAYLOAD_SIZE - i,
    {
        out.push(0);
        i += 1;
        proof {
            assert(out@ =~= body + wire::zeros((i - used) as nat));
        }
    }
    proof {
        assert(out@ =~= post_input(connection_id, payload@));
    }
    out
}

/// What to do after an attempt to post.
#[derive(Copy, Clone, Debug)]
pub enum AfterPost {
    /// The post is over, with this result.
    Done(Result<()>),
    /// Idle for so many iterations and try again.
    Again { idle: usize },
}

/// What attempt number `attempt`, counting from 0, leads to when the
/// hypervisor answers `reply`.
pub fn after_post(attempt: usize, reply: core::result::Result<(), TmkError>) -> (r: AfterPost)
    requires
        attempt < POST_MESSAGE_MAX_RETRIES,
    ensures
        match reply {
            Ok(_) => r == AfterPost::Done(Ok(())),
            Err(e) => if !transient(e) {
                r == AfterPost::Done(Err(Error::Hypercall(e)))
            } else if attempt + 1 == POST_MESSAGE_MAX_RETRIES {
                r == AfterPost::Done(Err(Error::Hypercall(TmkError::InsufficientBuffers)))
            } else {
                r matches AfterPost::Again { idle } && idle == POST_MESSAGE_BACKOFF_ITERS
                    * doubled(
                    if attempt <= POST_MESSAGE_BACKOFF_MAX_SHIFT {
                        attempt as nat
                    } else {
                        POST_MESSAGE_BACKOFF_MAX_SHIFT as nat
                    },
                )
            },
        },
{
    match reply {
        Ok(()) => AfterPost::Done(Ok(())),
        Err(TmkError::InsufficientBuffers) | Err(TmkError::InsufficientMemory) => {
            // The per-VP message queue is full or the hypervisor is under
            // memory pressure. Give it room to drain.
            if attempt + 1 == POST_MESSAGE_MAX_RETRIES {
                AfterPost::Done(Err(Error::Hypercall(TmkError::InsufficientBuffers)))
            } else {
                AfterPost::Again { idle: backoff_iters(attempt) }
            }
        },
        Err(e) => AfterPost::Done(Err(Error::Hypercall(e))),
    }
}

/// Post a message to the specified VMBus connection.
///
/// * `connection_id`: 1 for versions < 5.0, 4 for versions >= 5.0 unless
///   the host returned a different id in `VersionResponse`.
/// * `payload`: the encoded VMBus message including its `MessageHeader`.
///
/// The payload is truncated at `HV_MESSAGE_PAYLOAD_SIZE` (240 bytes).
///
/// Retries transient resource exhaustion up to
/// [`POST_MESSAGE_MAX_RETRIES`] times: the hypervisor's per-VP message
/// queue can transiently reject posts under load.
pub fn post_message<C: HypercallTrait>(
    ctx: &mut HvCtx<C>,
    connection_id: u32,
    payload: &[u8],
) -> (r: Result<()>)
    ensures
        old(ctx).ran_to(*final(ctx)),
        one_more(old(ctx).log(), final(ctx).log()),
        final(ctx).log().last().is_post(connection_id, payload@, r),
        went_through(
            old(ctx).platform(),
            final(ctx).log().last()->Posted_calls,
            final(ctx).platform(),
        ),
{
    broadcast use lemma_ran_nowhere;

    let ghost first = *ctx;
    let input = build_post_input(connection_id, payload);
    let ghost mut calls: Seq<HvCall> = Seq::empty();
    let mut attempt: usize = 0;
    loop
        invariant
            attempt < POST_MESSAGE_MAX_RETRIES,
            first == *old(ctx),
            first.ran_to(*ctx),
            went_through(first.platform(), calls, ctx.platform()),
            input@ == post_input(connection_id, payload@),
            calls.len() == attempt,
            forall|i: int|
                0 <= i < calls.len() ==> (#[trigger] calls[i]).is(
                    HV_CALL_POST_MESSAGE,
                    post_input(connection_id, payload@),
                    0,
                    None,
                    false,
                ),
            forall|i: int|
                0 <= i < calls.len() ==> ((#[trigger] calls[i]).reply matches Err(e)
                    && transient(e)),
        decreases POST_MESSAGE_MAX_RETRIES - attempt,
    {
        let mut nothing: [u8; 0] = [];
        let ghost mid = ctx.platform();
        let ghost before = *ctx;
        let reply = ctx.call(
            HV_CALL_POST_MESSAGE,
            input.as_slice(),
            &mut nothing,
            HypercallConfig::default(),
        );
        proof {
            let call = ctx.log().last()->Call_0;
            assert(calls.push(call).drop_last() =~= calls);
            assert(mid.called(calls.push(call).last(), ctx.platform()));
            lemma_ran_on(first, before, *ctx);
            calls = calls.push(call);
        }
        match after_post(attempt, reply) {
            AfterPost::Done(r) => {
                let ghost ev = HvEvent::Posted {
                    connection_id,
                    payload: payload@,
                    calls,
                    result: r,
                };
                ctx.condense(Ghost(first), Ghost(ev));
                proof {
                    assert(ctx.log().drop_last() =~= first.log());
                }
                return r;
            },
            AfterPost::Again { idle: iters } => {
                idle(iters);
            },
        }
        attempt += 1;
    }
}

/// Signal an event flag on the specified connection.
///
/// Used on the ring-buffer send path to notify the host that data
/// has been produced. Guest to host signals always use `flag_number = 0`;
/// the per-channel `event_flag` field is for the **host to guest**
/// direction only (bit position in the SIEFP page).
pub fn signal_event<C: HypercallTrait>(
    ctx: &mut HvCtx<C>,
    connection_id: u32,
    flag_number: u16,
) -> (r: Result<()>)
    ensures
        old(ctx).ran_to(*final(ctx)),
        old(ctx).platform().called(final(ctx).log().last()->Call_0, final(ctx).platform()),
        one_more(old(ctx).log(), final(ctx).log()),
        is_signal(final(ctx).log().last(), connection_id, flag_number, r),
{
    let msg = SignalEvent { connection_id, flag_number, rsvd: 0 };
    let input = msg.as_bytes();
    let mut nothing: [u8; 0] = [];
    let r = ctx.call(
        HV_CALL_SIGNAL_EVENT,
        input.as_slice(),
        &mut nothing,
        HypercallConfig { rep_count: None, fast_call: true },
    );
    proof {
        assert(ctx.log().drop_last() =~= old(ctx).log());
    }
    match r {
        Ok(()) => Ok(()),
        Err(e) => Err(Error::Hypercall(e)),
    }
}

/// The event is a signal on this connection, with this result.
pub open spec fn is_signal(
    ev: HvEvent,
    connection_id: u32,
    flag_number: u16,
    result: Result<()>,
) -> bool {
    &&& ev matches HvEvent::Call(c)
    &&& c.is(
        HV_CALL_SIGNAL_EVENT,
        (SignalEvent { connection_id, flag_number, rsvd: 0 }).wire(),
        0,
        None,
        true,
    )
    &&& result == c.result()
}

// ---------------------------------------------------------------------------
// Virtual registers
// ---------------------------------------------------------------------------
/// What leads a register call on the current processor.
pub open spec fn registers_header(target_vtl: HvInputVtl) -> Seq<u8> {
    HV_PARTITION_ID_SELF.wire() + HV_VP_INDEX_SELF.wire() + target_vtl.wire() + wire::zeros(3)
}

/// Registers and values, one after the other.
pub open spec fn assocs_wire(assocs: Seq<(HvRegisterName, HvRegisterValue)>) -> Seq<u8>
    decreases assocs.len(),
{
    if assocs.len() == 0 {
        Seq::empty()
    } else {
        assocs_wire(assocs.drop_last()) + assoc_wire(assocs.last())
    }
}

/// A register and its value.
pub open spec fn assoc_wire(assoc: (HvRegisterName, HvRegisterValue)) -> Seq<u8> {
    assoc.0.wire() + wire::zeros(12) + assoc.1.wire()
}

/// Register names, one after the other.
pub open spec fn names_wire(names: Seq<HvRegisterName>) -> Seq<u8>
    decreases names.len(),
{
    if names.len() == 0 {
        Seq::empty()
    } else {
        names_wire(names.drop_last()) + names.last().wire()
    }
}

/// The event sets these registers, with this result.
pub open spec fn is_register_write(
    ev: HvEvent,
    target_vtl: HvInputVtl,
    assocs: Seq<(HvRegisterName, HvRegisterValue)>,
    result: Result<()>,
) -> bool {
    &&& ev matches HvEvent::Call(c)
    &&& c.is(
        HV_CALL_SET_VP_REGISTERS,
        registers_header(target_vtl) + assocs_wire(assocs),
        0,
        Some(assocs.len() as usize),
        false,
    )
    &&& result == c.result()
}

/// Build what leads a register call.
fn build_registers_header(target_vtl: HvInputVtl) -> (r: Vec<u8>)
    ensures
        r@ == registers_header(target_vtl),
{
    let header = GetSetVpRegisters {
        partition_id: HV_PARTITION_ID_SELF,
        vp_index: HV_VP_INDEX_SELF,
        target_vtl,
        rsvd: [0, 0, 0],
    };
    proof {
        assert(header.rsvd@ =~= wire::zeros(3));
    }
    header.as_bytes()
}

/// Set a single VP register on the current VP.
pub fn set_vp_register<C: HypercallTrait>(
    ctx: &mut HvCtx<C>,
    name: HvRegisterName,
    value: HvRegisterValue,
) -> (r: Result<()>)
    ensures
        old(ctx).ran_to(*final(ctx)),
        old(ctx).platform().called(final(ctx).log().last()->Call_0, final(ctx).platform()),
        one_more(old(ctx).log(), final(ctx).log()),
        is_register_write(
            final(ctx).log().last(),
            HvInputVtl(HvInputVtl::CURRENT_VTL),
            seq![(name, value)],
            r,
        ),
{
    let assocs: [(HvRegisterName, HvRegisterValue); 1] = [(name, value)];
    proof {
        assert(assocs@ =~= seq![(name, value)]);
    }
    set_vp_registers(ctx, HvInputVtl(HvInputVtl::CURRENT_VTL), assocs.as_slice())
}

/// Set N VP registers on the current VP in a single hypercall.
///
/// `assocs` is a slice of `(name, value)` pairs; the hypercall is issued
/// with `rep_count = assocs.len()`. Nothing is asked for no registers.
pub fn set_vp_registers<C: HypercallTrait>(
    ctx: &mut HvCtx<C>,
    target_vtl: HvInputVtl,
    assocs: &[(HvRegisterName, HvRegisterValue)],
) -> (r: Result<()>)
    ensures
        old(ctx).ran_to(*final(ctx)),
        assocs@.len() == 0 ==> r == Ok::<(), Error>(()) && *final(ctx) == *old(ctx),
        assocs@.len() > 0 ==> old(ctx).platform().called(
            final(ctx).log().last()->Call_0,
            final(ctx).platform(),
        ),
        assocs@.len() > 0 ==> one_more(old(ctx).log(), final(ctx).log()) && is_register_write(
            final(ctx).log().last(),
            target_vtl,
            assocs@,
            r,
        ),
{
    broadcast use group_ran;

    if assocs.len() == 0 {
        return Ok(());
    }
    let mut input = build_registers_header(target_vtl);
    let ghost head = input@;
    let mut i: usize = 0;
    proof {
        assert(input@ =~= head + assocs_wire(assocs@.take(0)));
    }
    while i < assocs.len()
        invariant
            i <= assocs@.len(),
            input@ == head + assocs_wire(assocs@.take(i as int)),
        decreases assocs@.len() - i,
    {
        let assoc = HvRegisterAssoc { name: assocs[i].0, pad: [0;12], value: assocs[i].1 };
        assoc.write_to(&mut input);
        i += 1;
        proof {
            let t = assocs@.take(i as int);
            assert(t.drop_last() =~= assocs@.take(i - 1));
            assert(assoc.pad@ =~= wire::zeros(12));
            assert(input@ =~= head + assocs_wire(t));
        }
    }
    proof {
        assert(assocs@.take(i as int) =~= assocs@);
    }
    let mut nothing: [u8; 0] = [];
    let r = ctx.call(
        HV_CALL_SET_VP_REGISTERS,
        input.as_slice(),
        &mut nothing,
        HypercallConfig { rep_count: Some(assocs.len()), fast_call: false },
    );
    proof {
        assert(ctx.log().drop_last() =~= old(ctx).log());
    }
    match r {
        Ok(()) => Ok(()),
        Err(e) => Err(Error::Hypercall(e)),
    }
}

/// The low halves of `n` register values.
pub open spec fn low_halves(bytes: Seq<u8>, n: nat) -> Seq<u64> {
    Seq::new(n, |i: int| wire::decoded::<u64>(bytes.subrange(16 * i, 16 * i + 8)))
}

/// Read N VP registers on the current VP in a single hypercall.
///
/// Returns their values in the same order as the input `names`.
/// Only the low 64 bits are returned per register. Nothing is asked for
/// no registers.
pub fn get_vp_registers<C: HypercallTrait>(
    ctx: &mut HvCtx<C>,
    target_vtl: HvInputVtl,
    names: &[HvRegisterName],
) -> (r: Result<Vec<u64>>)
    requires
        16 * names@.len() <= usize::MAX,
    ensures
        old(ctx).ran_to(*final(ctx)),
        names@.len() == 0 ==> (r matches Ok(v) && v@.len() == 0) && *final(ctx) == *old(ctx),
        names@.len() > 0 ==> {
            &&& old(ctx).platform().called(
                final(ctx).log().last()->Call_0,
                final(ctx).platform(),
            )
            &&& one_more(old(ctx).log(), final(ctx).log())
            &&& final(ctx).log().last() matches HvEvent::Call(c)
            &&& c.is(
                HV_CALL_GET_VP_REGISTERS,
                registers_header(target_vtl) + names_wire(names@),
                16 * names@.len(),
                Some(names@.len() as usize),
                false,
            )
            &&& match c.reply {
                Ok(bytes) => r matches Ok(v) && v@ == low_halves(bytes, names@.len()),
                Err(e) => r matches Err(x) && x == Error::Hypercall(e),
            }
        },
{
    broadcast use group_ran;

    if names.len() == 0 {
        return Ok(Vec::new());
    }
    let mut input = build_registers_header(target_vtl);
    let ghost head = input@;
    let mut i: usize = 0;
    proof {
        assert(input@ =~= head + names_wire(names@.take(0)));
    }
    while i < names.len()
        invariant
            i <= names@.len(),
            input@ == head + names_wire(names@.take(i as int)),
        decreases names@.len() - i,
    {
        names[i].write_to(&mut input);
        i += 1;
        proof {
            let t = names@.take(i as int);
            assert(t.drop_last() =~= names@.take(i - 1));
            assert(input@ =~= head + names_wire(t));
        }
    }
    proof {
        assert(names@.take(i as int) =~= names@);
    }
    let n = names.len();
    let mut output: Vec<u8> = Vec::new();
    while output.len() < 16 * n
        invariant
            output@.len() <= 16 * n,
            16 * n <= usize::MAX,
        decreases 16 * n - output@.len(),
    {
        output.push(0);
    }
    let r = ctx.call(
        HV_CALL_GET_VP_REGISTERS,
        input.as_slice(),
        output.as_mut_slice(),
        HypercallConfig { rep_count: Some(n), fast_call: false },
    );
    proof {
        assert(ctx.log().drop_last() =~= old(ctx).log());
    }
    if let Err(e) = r {
        return Err(Error::Hypercall(e));
    }
    let mut values: Vec<u64> = Vec::new();
    let mut k: usize = 0;
    while k < n
        invariant
            k <= n,
            output@.len() == 16 * n,
            16 * n <= usize::MAX,
            values@ == low_halves(output@, k as nat),
        decreases n - k,
    {
        let low = u64::read_at(output.as_slice(), 16 * k);
        proof {
            wire::lemma_decoded(low);
        }
        values.push(low);
        k += 1;
        proof {
            assert(values@ =~= low_halves(output@, k as nat));
        }
    }
    Ok(values)
}

/// Law: a message is posted exactly once when the hypervisor accepts it
/// at once, and the outcome of a post never hides a refusal.
pub proof fn law_post_outcome(
    connection_id: u32,
    payload: Seq<u8>,
    calls: Seq<HvCall>,
    result: Result<()>,
)
    requires
        post_went(connection_id, payload, calls, result),
    ensures
        calls[0].reply is Ok ==> calls.len() == 1 && result is Ok,
        result is Ok <==> calls.last().reply is Ok,
        forall|i: int| 0 <= i < calls.len() - 1 ==> (#[trigger] calls[i]).reply is Err,
{
}

} // verus!
