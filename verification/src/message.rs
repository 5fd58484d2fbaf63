//! Per-message-type encode / decode helpers and the outbound
//! request-completion table.
//!
//! Every vmbus message on the wire is a `MessageHeader` followed by a
//! payload. On the guest side we:
//! * Encode outbound messages into a `[u8; MAX_MESSAGE_SIZE]` and post
//!   them via [`crate::hypercalls::post_message`].
//! * Decode inbound messages from the SIMP message page by matching on
//!   `MessageHeader::message_type()`.
//! * Route completions to the pending request that owns them, matched by
//!   `(msg_type, key)`, see [`CompletionKey`].
use crate::error::Error;
use crate::error::Result;
use crate::hvsock;
use crate::hvsock::dispatch_connect_result;
use crate::hvsock::ConnectResultHandler;
use crate::protocol;
use crate::protocol::ChannelId;
use crate::protocol::GpadlCreated;
use crate::protocol::GpadlId;
use crate::protocol::GpadlTorndown;
use crate::protocol::Guid;
use crate::protocol::MessageHeader;
use crate::protocol::MessageType;
use crate::protocol::ModifyChannelResponse;
use crate::protocol::OfferChannel;
use crate::protocol::OpenResult;
use crate::protocol::RescindChannelOffer;
use crate::protocol::TlConnectResult;
use crate::protocol::VmbusMessage;
use crate::protocol::HEADER_SIZE;
use crate::protocol::MAX_MESSAGE_SIZE;
use crate::wire;
use crate::wire::Wire;
use std::sync::Arc;
use vstd::prelude::*;

verus! {

// ---------------------------------------------------------------------------
// Encoding and parsing
// ---------------------------------------------------------------------------
/// Encode `msg` into a maximum-size message buffer along with its
/// `MessageHeader`. Returns the number of used bytes; the rest is zero.
pub fn encode<M: VmbusMessage>(msg: &M, out: &mut [u8; 240]) -> (used: usize)
    requires
        HEADER_SIZE + M::wire_len() <= MAX_MESSAGE_SIZE,
    ensures
        used == M::MESSAGE_SIZE,
        used == HEADER_SIZE + M::wire_len(),
        final(out)@ == protocol::message_bytes(*msg) + wire::zeros(
            (MAX_MESSAGE_SIZE - used) as nat,
        ),
        final(out)@.take(used as int) == protocol::message_bytes(*msg),
{
    let bytes = encode_to_vec(msg);
    let ghost want = bytes@ + wire::zeros((MAX_MESSAGE_SIZE - bytes@.len()) as nat);
    let mut i: usize = 0;
    while i < MAX_MESSAGE_SIZE
        invariant
            i <= MAX_MESSAGE_SIZE,
            bytes@.len() <= MAX_MESSAGE_SIZE,
            want == bytes@ + wire::zeros((MAX_MESSAGE_SIZE - bytes@.len()) as nat),
            forall|j: int| 0 <= j < i ==> #[trigger] out@[j] == want[j],
        decreases MAX_MESSAGE_SIZE - i,
    {
        out[i] = if i < bytes.len() {
            bytes[i]
        } else {
            0
        };
        i += 1;
    }
    proof {
        assert(out@ =~= want);
        assert(out@.take(bytes@.len() as int) =~= bytes@);
    }
    bytes.len()
}

/// `msg` behind its header, as a byte vector.
pub fn encode_to_vec<M: VmbusMessage>(msg: &M) -> (r: Vec<u8>)
    ensures
        r@ == protocol::message_bytes(*msg),
        r@.len() == M::MESSAGE_SIZE,
        r@.len() == HEADER_SIZE + M::wire_len(),
{
    proof {
        M::lemma_message();
    }
    let header = MessageHeader::new(MessageType(M::MESSAGE_TYPE));
    let mut out = header.as_bytes();
    msg.write_to(&mut out);
    proof {
        header.lemma_wire_len();
        msg.lemma_wire_len();
    }
    out
}

/// The type word at the front of a message.
pub open spec fn type_of(bytes: Seq<u8>) -> MessageType {
    wire::decoded::<MessageHeader>(bytes.take(8)).message_type
}

/// The type of a message, or why it has none.
pub open spec fn header_of(bytes: Seq<u8>) -> Result<MessageType> {
    if bytes.len() < HEADER_SIZE {
        Err(Error::Parse { ty: None, reason: "message shorter than header" })
    } else {
        Ok(type_of(bytes))
    }
}

/// A message read as type `M`, or why it cannot be.
pub open spec fn parsed<M: VmbusMessage>(bytes: Seq<u8>) -> Result<M> {
    match header_of(bytes) {
        Err(e) => Err(e),
        Ok(ty) => if ty.0 != M::type_word() {
            Err(Error::UnexpectedMessage(ty))
        } else if bytes.len() < HEADER_SIZE + M::wire_len() {
            Err(Error::Parse { ty: Some(ty), reason: "message body truncated" })
        } else {
            Ok(wire::decoded::<M>(bytes.subrange(8, 8 + M::wire_len() as int)))
        },
    }
}

/// Peek at the header of an inbound message; returns the message type or
/// [`Error::Parse`] if the buffer is too small.
pub fn peek_header(bytes: &[u8]) -> (r: Result<MessageType>)
    ensures
        r == header_of(bytes@),
{
    if bytes.len() < HEADER_SIZE {
        return Err(Error::Parse { ty: None, reason: "message shorter than header" });
    }
    let header = MessageHeader::read_at(bytes, 0);
    proof {
        assert(bytes@.subrange(0, 8) =~= bytes@.take(8));
        wire::lemma_decoded(header);
    }
    Ok(header.message_type())
}

/// Try to parse the body of `bytes` as message type `M`. Fails if the
/// buffer isn't long enough or if the header type doesn't match `M`.
pub fn parse<M: VmbusMessage>(bytes: &[u8]) -> (r: Result<M>)
    ensures
        r == parsed::<M>(bytes@),
{
    proof {
        M::lemma_message();
    }
    let ty = match peek_header(bytes) {
        Ok(ty) => ty,
        Err(e) => return Err(e),
    };
    if ty.0 != M::MESSAGE_TYPE {
        return Err(Error::UnexpectedMessage(ty));
    }
    if bytes.len() < M::MESSAGE_SIZE {
        return Err(Error::Parse { ty: Some(ty), reason: "message body truncated" });
    }
    let msg = M::read_at(bytes, HEADER_SIZE);
    proof {
        wire::lemma_decoded(msg);
    }
    Ok(msg)
}

/// The type word of a message is the one it was encoded with.
pub proof fn lemma_type_of_encoded<M: VmbusMessage>(msg: M, rest: Seq<u8>)
    ensures
        type_of(protocol::message_bytes(msg) + rest) == MessageType(M::type_word()),
        protocol::message_bytes(msg).len() == HEADER_SIZE + M::wire_len(),
{
    let h = MessageHeader { message_type: MessageType(M::type_word()), padding: 0 };
    h.lemma_wire_len();
    msg.lemma_wire_len();
    assert((protocol::message_bytes(msg) + rest).take(8) =~= h.wire());
    wire::lemma_decoded(h);
}

/// Law: a message that was encoded is parsed back, whatever follows it in
/// the buffer.
pub proof fn law_parse_encoded<M: VmbusMessage>(msg: M, rest: Seq<u8>)
    ensures
        parsed::<M>(protocol::message_bytes(msg) + rest) == Ok::<M, Error>(msg),
{
    let b = protocol::message_bytes(msg) + rest;
    lemma_type_of_encoded(msg, rest);
    let h = MessageHeader { message_type: MessageType(M::type_word()), padding: 0 };
    h.lemma_wire_len();
    msg.lemma_wire_len();
    assert(b.subrange(8, 8 + M::wire_len() as int) =~= msg.wire());
    wire::lemma_decoded(msg);
}

/// Law: a message of one type is never taken for one of another.
pub proof fn law_parse_rejects_other_type<M: VmbusMessage, N: VmbusMessage>(
    msg: M,
    rest: Seq<u8>,
)
    requires
        M::type_word() != N::type_word(),
    ensures
        parsed::<N>(protocol::message_bytes(msg) + rest) == Err::<N, Error>(
            Error::UnexpectedMessage(MessageType(M::type_word())),
        ),
{
    lemma_type_of_encoded(msg, rest);
}

// ---------------------------------------------------------------------------
// Completion keys
// ---------------------------------------------------------------------------
/// Discriminator used to route host completions back to the outbound
/// request that started them.
///
/// The key mirrors the disambiguation the host performs when it emits
/// each response: `VersionResponse`, `AllOffersDelivered` and
/// `UnloadComplete` are singletons (at most one such request is in
/// flight at any time by design), everything else keys on the unique
/// id the guest allocated for the request.
#[derive(Copy, Clone, Debug, Eq, PartialEq, Ord, PartialOrd, Structural)]
pub enum CompletionKey {
    /// Completion for the current `InitiateContact`. Singleton.
    VersionResponse,
    /// Terminator for `RequestOffers`. Singleton.
    AllOffersDelivered,
    /// Completion for `Unload`. Singleton.
    UnloadComplete,
    /// Completion for `OpenChannel[/2]`, matched by `open_id`.
    OpenChannelResult(u32),
    /// Completion for `GpadlHeader`, matched by `gpadl_id`.
    GpadlCreated(GpadlId),
    /// Completion for `GpadlTeardown`, matched by `gpadl_id`.
    GpadlTorndown(GpadlId),
    /// Completion for `ModifyChannel`, matched by `channel_id`.
    ModifyChannelResponse(ChannelId),
    /// Result of a `TlConnectRequest[/2]`, keyed by `endpoint_id`
    /// packed into a `u128` (the exact packing is stable but arbitrary).
    TlConnectResult(u128),
}

/// The number whose little-endian digits are `bytes`.
pub open spec fn le_value(bytes: Seq<u8>) -> nat
    decreases bytes.len(),
{
    if bytes.len() == 0 {
        0
    } else {
        bytes[0] as nat + 256 * le_value(bytes.drop_first())
    }
}

/// Numbers of `n` bytes stay below 256 to the `n`.
pub proof fn lemma_le_value_bound(bytes: Seq<u8>)
    ensures
        le_value(bytes) < vstd::arithmetic::power::pow(256, bytes.len()),
    decreases bytes.len(),
{
    reveal(vstd::arithmetic::power::pow);
    if bytes.len() > 0 {
        lemma_le_value_bound(bytes.drop_first());
    }
}

/// Law: different byte strings of one length are different numbers.
pub proof fn law_le_value_injective(a: Seq<u8>, b: Seq<u8>)
    requires
        a.len() == b.len(),
        le_value(a) == le_value(b),
    ensures
        a == b,
    decreases a.len(),
{
    if a.len() > 0 {
        let x = le_value(a.drop_first());
        let y = le_value(b.drop_first());
        assert(a[0] as nat + 256 * x == b[0] as nat + 256 * y);
        assert(x == y && a[0] == b[0]);
        law_le_value_injective(a.drop_first(), b.drop_first());
        assert forall|i: int| 0 <= i < a.len() implies a[i] == b[i] by {
            if i > 0 {
                assert(a.drop_first()[i - 1] == b.drop_first()[i - 1]);
            }
        }
    }
    assert(a =~= b);
}

/// Pack a `Guid` into a `u128` so it can serve as a map key.
pub fn guid_to_key(g: &Guid) -> (r: u128)
    ensures
        r == le_value(g.wire()),
{
    let bytes = g.as_bytes();
    proof {
        g.lemma_wire_len();
        assert(bytes@.skip(16) =~= Seq::empty());
    }
    let mut i: usize = 16;
    let mut acc: u128 = 0;
    while i > 0
        invariant
            i <= 16,
            bytes@.len() == 16,
            acc == le_value(bytes@.skip(i as int)),
        decreases i,
    {
        i -= 1;
        proof {
            let tail = bytes@.skip(i as int);
            assert(tail.drop_first() =~= bytes@.skip(i + 1));
            lemma_le_value_bound(tail);
            vstd::arithmetic::power::lemma_pow_increases(256, tail.len(), 16);
            assert(vstd::arithmetic::power::pow(256, 16)
                == 0x1_0000_0000_0000_0000_0000_0000_0000_0000) by {
                reveal_with_fuel(vstd::arithmetic::power::pow, 17);
            }
        }
        acc = acc * 256 + bytes[i] as u128;
    }
    proof {
        assert(bytes@.skip(0) =~= bytes@);
    }
    acc
}

/// The key of the request that a message completes, if it completes one.
pub open spec fn key_of(bytes: Seq<u8>) -> Result<Option<CompletionKey>> {
    match header_of(bytes) {
        Err(e) => Err(e),
        Ok(ty) => if ty.0 == MessageType::VERSION_RESPONSE {
            Ok(Some(CompletionKey::VersionResponse))
        } else if ty.0 == MessageType::ALL_OFFERS_DELIVERED {
            Ok(Some(CompletionKey::AllOffersDelivered))
        } else if ty.0 == MessageType::UNLOAD_COMPLETE {
            Ok(Some(CompletionKey::UnloadComplete))
        } else if ty.0 == MessageType::OPEN_CHANNEL_RESULT {
            match parsed::<OpenResult>(bytes) {
                Ok(m) => Ok(Some(CompletionKey::OpenChannelResult(m.open_id))),
                Err(e) => Err(e),
            }
        } else if ty.0 == MessageType::GPADL_CREATED {
            match parsed::<GpadlCreated>(bytes) {
                Ok(m) => Ok(Some(CompletionKey::GpadlCreated(m.gpadl_id))),
                Err(e) => Err(e),
            }
        } else if ty.0 == MessageType::GPADL_TORNDOWN {
            match parsed::<GpadlTorndown>(bytes) {
                Ok(m) => Ok(Some(CompletionKey::GpadlTorndown(m.gpadl_id))),
                Err(e) => Err(e),
            }
        } else if ty.0 == MessageType::MODIFY_CHANNEL_RESPONSE {
            match parsed::<ModifyChannelResponse>(bytes) {
                Ok(m) => Ok(Some(CompletionKey::ModifyChannelResponse(m.channel_id))),
                Err(e) => Err(e),
            }
        } else if ty.0 == MessageType::TL_CONNECT_RESULT {
            match parsed::<TlConnectResult>(bytes) {
                Ok(m) => Ok(
                    Some(
                        CompletionKey::TlConnectResult(le_value(m.endpoint_id.wire()) as u128),
                    ),
                ),
                Err(e) => Err(e),
            }
        } else {
            Ok(None)
        },
    }
}

/// Given `bytes` starting at a `MessageHeader`, return the
/// [`CompletionKey`] the message satisfies, or `None` if the message
/// isn't a completion type.
pub fn completion_key_for(bytes: &[u8]) -> (r: Result<Option<CompletionKey>>)
    ensures
        r == key_of(bytes@),
{
    let ty = match peek_header(bytes) {
        Ok(ty) => ty,
        Err(e) => return Err(e),
    };
    if ty.0 == MessageType::VERSION_RESPONSE {
        Ok(Some(CompletionKey::VersionResponse))
    } else if ty.0 == MessageType::ALL_OFFERS_DELIVERED {
        Ok(Some(CompletionKey::AllOffersDelivered))
    } else if ty.0 == MessageType::UNLOAD_COMPLETE {
        Ok(Some(CompletionKey::UnloadComplete))
    } else if ty.0 == MessageType::OPEN_CHANNEL_RESULT {
        match parse::<OpenResult>(bytes) {
            Ok(m) => Ok(Some(CompletionKey::OpenChannelResult(m.open_id))),
            Err(e) => Err(e),
        }
    } else if ty.0 == MessageType::GPADL_CREATED {
        match parse::<GpadlCreated>(bytes) {
            Ok(m) => Ok(Some(CompletionKey::GpadlCreated(m.gpadl_id))),
            Err(e) => Err(e),
        }
    } else if ty.0 == MessageType::GPADL_TORNDOWN {
        match parse::<GpadlTorndown>(bytes) {
            Ok(m) => Ok(Some(CompletionKey::GpadlTorndown(m.gpadl_id))),
            Err(e) => Err(e),
        }
    } else if ty.0 == MessageType::MODIFY_CHANNEL_RESPONSE {
        match parse::<ModifyChannelResponse>(bytes) {
            Ok(m) => Ok(Some(CompletionKey::ModifyChannelResponse(m.channel_id))),
            Err(e) => Err(e),
        }
    } else if ty.0 == MessageType::TL_CONNECT_RESULT {
        match parse::<TlConnectResult>(bytes) {
            Ok(m) => Ok(Some(CompletionKey::TlConnectResult(guid_to_key(&m.endpoint_id)))),
            Err(e) => Err(e),
        }
    } else {
        Ok(None)
    }
}

// ---------------------------------------------------------------------------
// Completion table
// ---------------------------------------------------------------------------
/// What a slot of the table stands for.
#[verifier::ext_equal]
pub struct SlotState {
    /// The key the slot was registered for.
    pub key: CompletionKey,
    /// Whether completions for the key go to this slot.
    pub current: bool,
    /// Whether the completion has arrived.
    pub completed: bool,
    /// The raw wire bytes of the completion message (starting at the
    /// `MessageHeader`). Filled on arrival, taken once.
    pub response: Option<Seq<u8>>,
}

/// The slot that completions for `key` go to: the last one registered.
pub open spec fn slot_for(t: Seq<SlotState>, key: CompletionKey) -> Option<int>
    decreases t.len(),
{
    if t.len() == 0 {
        None
    } else if t.last().current && t.last().key == key {
        Some(t.len() - 1)
    } else {
        slot_for(t.drop_last(), key)
    }
}

/// The table once a completion for `key` is expected: a new slot takes
/// the place of the one that was there before.
pub open spec fn registered(t: Seq<SlotState>, key: CompletionKey) -> Seq<SlotState> {
    Seq::new(
        t.len(),
        |i: int|
            if t[i].key == key {
                SlotState { current: false, ..t[i] }
            } else {
                t[i]
            },
    ).push(SlotState { key, current: true, completed: false, response: None })
}

/// The table once the completion for `key` has arrived.
pub open spec fn delivered(
    t: Seq<SlotState>,
    key: CompletionKey,
    response: Seq<u8>,
) -> Seq<SlotState> {
    match slot_for(t, key) {
        Some(i) => t.update(
            i,
            SlotState { completed: true, response: Some(response), ..t[i] },
        ),
        None => t,
    }
}

/// The table without the slots that nobody waits for any more.
pub open spec fn pruned(t: Seq<SlotState>, held: Seq<bool>) -> Seq<SlotState> {
    Seq::new(
        t.len(),
        |i: int|
            if held[i] {
                t[i]
            } else {
                SlotState { current: false, response: None, ..t[i] }
            },
    )
}

/// Number of slots that completions can go to.
pub open spec fn live_count(t: Seq<SlotState>) -> nat
    decreases t.len(),
{
    if t.len() == 0 {
        0
    } else {
        live_count(t.drop_last()) + (if t.last().current {
            1nat
        } else {
            0nat
        })
    }
}

/// What marks a slot as waited for: the table keeps one owner, each
/// handle another.
#[derive(Debug)]
struct SlotToken {
    /// The slot that it belongs to.
    slot: usize,
}

/// Slot holding a single pending completion.
#[derive(Debug)]
struct CompletionSlot {
    key: CompletionKey,
    token: Arc<SlotToken>,
    current: bool,
    completed: bool,
    response: Option<Vec<u8>>,
}

impl CompletionSlot {
    spec fn state(self) -> SlotState {
        SlotState {
            key: self.key,
            current: self.current,
            completed: self.completed,
            response: match self.response {
                Some(v) => Some(v@),
                None => None,
            },
        }
    }
}

/// What the slots hold.
spec fn states(slots: Seq<CompletionSlot>) -> Seq<SlotState> {
    Seq::new(slots.len(), |i: int| slots[i].state())
}

/// Every token belongs to the slot that it stands in.
spec fn in_place(slots: Seq<CompletionSlot>) -> bool {
    forall|i: int| 0 <= i < slots.len() ==> (#[trigger] slots[i]).token.slot == i
}

/// `std::sync::Arc::strong_count`: how many owners the token has at this
/// moment. Nothing is claimed of the number, which changes whenever a
/// handle is cloned or dropped.
#[verifier::external_body]
fn owners(token: &Arc<SlotToken>) -> usize {
    Arc::strong_count(token)
}

/// Put the question `f` to a token. The answer is one that `f` gives of
/// this token.
fn asked<F: Fn(&Arc<SlotToken>) -> usize>(f: F, token: &Arc<SlotToken>) -> (n: usize)
    requires
        call_requires(f, (token,)),
    ensures
        call_ensures(f, (token,), n),
{
    f(token)
}

/// Handle held by a caller waiting on a specific completion.
///
/// Cloneable so multiple observers may wait; the response bytes may be
/// taken by exactly one of them.
#[derive(Debug)]
pub struct CompletionHandle {
    key: CompletionKey,
    slot: usize,
    token: Arc<SlotToken>,
}

impl Clone for CompletionHandle {
    fn clone(&self) -> (r: Self)
        ensures
            r.slot() == self.slot(),
            r.for_key() == self.for_key(),
    {
        CompletionHandle { key: self.key, slot: self.slot, token: self.token.clone() }
    }
}

impl CompletionHandle {
    /// The slot of the table that this handle waits on.
    pub closed spec fn slot(&self) -> int {
        self.slot as int
    }

    /// The key this handle was registered for.
    pub closed spec fn for_key(&self) -> CompletionKey {
        self.key
    }

    /// Whether the completion has arrived, in a table that stands as `t`.
    pub open spec fn completed_in(&self, t: Seq<SlotState>) -> bool {
        0 <= self.slot() < t.len() && t[self.slot()].completed
    }

    /// What [`Self::take_response`] gives in a table that stands as `t`.
    pub open spec fn response_in(&self, t: Seq<SlotState>) -> Option<Seq<u8>> {
        if self.completed_in(t) {
            t[self.slot()].response
        } else {
            None
        }
    }

    /// Whether the host has delivered the completion.
    pub fn completed(&self, table: &CompletionTable) -> (r: bool)
        ensures
            r == self.completed_in(table@),
    {
        self.slot < table.slots.len() && table.slots[self.slot].completed
    }

    /// Take the completion response bytes, leaving `None` behind.
    /// Returns `None` if the completion has not arrived or has already
    /// been taken.
    pub fn take_response(&self, table: &mut CompletionTable) -> (r: Option<Vec<u8>>)
        ensures
            match r {
                Some(v) => self.response_in(old(table)@) == Some(v@),
                None => self.response_in(old(table)@) is None,
            },
            final(table)@ == (if self.completed_in(old(table)@) {
                old(table)@.update(
                    self.slot(),
                    SlotState { response: None, ..old(table)@[self.slot()] },
                )
            } else {
                old(table)@
            }),
    {
        if !self.completed(table) {
            return None;
        }
        let mut slots: Vec<CompletionSlot> = Vec::new();
        proof {
            use_type_invariant(&*table);
        }
        core::mem::swap(&mut table.slots, &mut slots);
        let r = slots[self.slot].response.take();
        table.slots = slots;
        proof {
            assert(table@ =~= old(table)@.update(
                self.slot(),
                SlotState { response: None, ..old(table)@[self.slot()] },
            ));
        }
        r
    }

    /// Return the key this handle was registered for.
    pub fn key(&self) -> (r: CompletionKey)
        ensures
            r == self.for_key(),
    {
        self.key
    }
}

/// Registry mapping in-flight requests to their pending completions.
#[derive(Debug)]
pub struct CompletionTable {
    slots: Vec<CompletionSlot>,
}

impl View for CompletionTable {
    type V = Seq<SlotState>;

    /// The slots in order of registration, each without the token that
    /// counts who still waits for it: nothing is known of that count.
    closed spec fn view(&self) -> Seq<SlotState> {
        states(self.slots@)
    }
}

impl Default for CompletionTable {
    fn default() -> (r: Self)
        ensures
            r@ == Seq::<SlotState>::empty(),
    {
        Self::new()
    }
}

impl CompletionTable {
    /// Every token belongs to the slot that it stands in.
    #[verifier::type_invariant]
    spec fn tokens_in_place(self) -> bool {
        in_place(self.slots@)
    }

    /// Asked how many owners the token of slot `i` has, the answer was `n`.
    pub closed spec fn counted(self, i: int, n: usize) -> bool {
        call_ensures(owners, (&self.slots@[i].token,), n)
    }

    /// Somebody still waits for slot `i`, or nobody does: the token has an
    /// owner beside the table.
    pub open spec fn waited(self, i: int, waited: bool) -> bool {
        exists|n: usize| #[trigger] self.counted(i, n) && waited == (n > 1)
    }

    /// The token of slot `i`.
    fn token_at(&self, i: usize) -> (r: &Arc<SlotToken>)
        requires
            i < self@.len(),
        ensures
            r.slot == i,
            *r == self.slots@[i as int].token,
    {
        proof {
            use_type_invariant(&*self);
        }
        &self.slots[i].token
    }

    /// Whether somebody still waits for slot `i`.
    fn waited_for(&self, i: usize) -> (r: bool)
        requires
            i < self@.len(),
        ensures
            self.waited(i as int, r),
    {
        let n = asked(owners, self.token_at(i));
        proof {
            assert(self.counted(i as int, n));
        }
        n > 1
    }

    /// Create an empty table.
    pub fn new() -> (r: Self)
        ensures
            r@ == Seq::<SlotState>::empty(),
    {
        let r = CompletionTable { slots: Vec::new() };
        proof {
            assert(r@ =~= Seq::<SlotState>::empty());
        }
        r
    }

    /// Register that a completion is expected for `key`.
    ///
    /// Returns a [`CompletionHandle`] the caller polls / passes to a
    /// waiter until [`CompletionHandle::completed`] returns `true`.
    ///
    /// Duplicate keys aren't rejected: the newer registration wins.
    /// The caller is responsible for ensuring only one request per key
    /// is in flight at any time.
    pub fn register(&mut self, key: CompletionKey) -> (r: CompletionHandle)
        ensures
            final(self)@ == registered(old(self)@, key),
            r.for_key() == key,
            r.slot() == old(self)@.len(),
    {
        let ghost before = self@;
        let mut slots: Vec<CompletionSlot> = Vec::new();
        proof {
            use_type_invariant(&*self);
        }
        core::mem::swap(&mut self.slots, &mut slots);
        let mut i: usize = 0;
        while i < slots.len()
            invariant
                i <= slots@.len(),
                slots@.len() == before.len(),
                in_place(slots@),
                forall|j: int|
                    0 <= j < before.len() ==> #[trigger] slots@[j].state() == (if j < i
                        && before[j].key == key {
                        SlotState { current: false, ..before[j] }
                    } else {
                        before[j]
                    }),
            decreases slots@.len() - i,
        {
            let ghost mid = slots@;
            if slots[i].key == key {
                slots[i].current = false;
            }
            proof {
                assert(mid[i as int].state() == before[i as int]);
                assert(slots@[i as int].state() == (SlotState {
                    current: slots@[i as int].current,
                    ..before[i as int]
                }));
                assert forall|j: int| 0 <= j < before.len() implies #[trigger] slots@[j].state()
                    == (if j < i + 1 && before[j].key == key {
                    SlotState { current: false, ..before[j] }
                } else {
                    before[j]
                }) by {
                    assert(mid[j].state() == mid[j].state());
                }
                assert forall|j: int| 0 <= j < slots@.len() implies (#[trigger] slots@[j]).token.slot
                    == j by {
                    assert(mid[j].token.slot == j);
                }
            }
            i += 1;
        }
        let slot = slots.len();
        let token = Arc::new(SlotToken { slot });
        let kept = token.clone();
        let ghost mid = slots@;
        slots.push(
            CompletionSlot { key, token: kept, current: true, completed: false, response: None },
        );
        proof {
            assert forall|j: int| 0 <= j < slots@.len() implies (#[trigger] slots@[j]).token.slot
                == j by {
                if j < mid.len() {
                    assert(mid[j].token.slot == j);
                }
            }
        }
        self.slots = slots;
        proof {
            assert forall|j: int| 0 <= j < self@.len() implies #[trigger] self@[j] == registered(
                before,
                key,
            )[j] by {
                assert(self@[j] == self.slots@[j].state());
            }
            assert(self@ =~= registered(before, key));
        }
        CompletionHandle { key, slot, token }
    }

    /// The slot that completions for `key` go to.
    fn find(&self, key: CompletionKey) -> (r: Option<usize>)
        ensures
            match r {
                Some(i) => slot_for(self@, key) == Some(i as int) && i < self@.len(),
                None => slot_for(self@, key) is None,
            },
    {
        let mut i: usize = self.slots.len();
        proof {
            assert(self@.take(i as int) =~= self@);
        }
        while i > 0
            invariant
                i <= self.slots@.len(),
                self@.len() == self.slots@.len(),
                slot_for(self@.take(i as int), key) == slot_for(self@, key),
            decreases i,
        {
            i -= 1;
            proof {
                let t = self@.take(i + 1);
                assert(t.drop_last() =~= self@.take(i as int));
                assert(t.last() == self.slots@[i as int].state());
            }
            if self.slots[i].current && self.slots[i].key == key {
                return Some(i);
            }
        }
        None
    }

    /// Deliver the completion for `key` by handing off `response` bytes.
    ///
    /// Returns [`Error::OrphanCompletion`] if there is no matching
    /// pending registration (host sent a completion we didn't ask for,
    /// or the last waiter dropped out before it arrived). In the second
    /// case the slot keeps a response that nobody can take.
    pub fn deliver(&mut self, key: CompletionKey, response: Vec<u8>) -> (r: Result<()>)
        ensures
            final(self)@ == delivered(old(self)@, key, response@),
            match slot_for(old(self)@, key) {
                Some(i) => exists|waited: bool| #[trigger]
                    old(self).waited(i, waited) && r == delivery_answer(true, waited),
                None => r == delivery_answer(false, false),
            },
    {
        match self.find(key) {
            Some(i) => {
                let waited = self.waited_for(i);
                let mut slots: Vec<CompletionSlot> = Vec::new();
                proof {
                    use_type_invariant(&*self);
                }
                core::mem::swap(&mut self.slots, &mut slots);
                slots[i].response = Some(response);
                slots[i].completed = true;
                self.slots = slots;
                proof {
                    assert(self@ =~= delivered(old(self)@, key, response@));
                }
                delivery_result(true, waited)
            },
            None => delivery_result(false, false),
        }
    }

    /// Number of live entries (entries that nobody waits for are pruned
    /// on read).
    pub fn pending(&mut self) -> (r: usize)
        ensures
            exists|held: Seq<bool>|
                {
                    &&& final(self)@ == #[trigger] pruned(old(self)@, held)
                    &&& held.len() == old(self)@.len()
                    &&& forall|i: int|
                        0 <= i < held.len() ==> old(self).waited(i, #[trigger] held[i])
                },
            r == live_count(final(self)@),
    {
        let mut held: Vec<bool> = Vec::new();
        let mut i: usize = 0;
        while i < self.slots.len()
            invariant
                i <= self.slots@.len(),
                *self == *old(self),
                held@.len() == i,
                forall|j: int| 0 <= j < held@.len() ==> self.waited(j, #[trigger] held@[j]),
            decreases self.slots@.len() - i,
        {
            held.push(self.waited_for(i));
            i += 1;
        }
        self.pending_held(&held)
    }

    /// [`Self::pending`] where `held` says of each slot, in order of
    /// registration, whether somebody still waits for it.
    pub fn pending_held(&mut self, held: &Vec<bool>) -> (r: usize)
        requires
            held@.len() == old(self)@.len(),
        ensures
            final(self)@ == pruned(old(self)@, held@),
            r == live_count(final(self)@),
    {
        let ghost before = self@;
        let mut slots: Vec<CompletionSlot> = Vec::new();
        proof {
            use_type_invariant(&*self);
        }
        core::mem::swap(&mut self.slots, &mut slots);
        let mut count: usize = 0;
        let mut i: usize = 0;
        proof {
            assert(states(slots@).take(0) =~= Seq::<SlotState>::empty());
        }
        while i < slots.len()
            invariant
                i <= slots@.len(),
                held@.len() == before.len(),
                slots@.len() == before.len(),
                in_place(slots@),
                forall|j: int|
                    0 <= j < before.len() ==> #[trigger] slots@[j].state() == (if j >= i
                        || held@[j] {
                        before[j]
                    } else {
                        SlotState { current: false, response: None, ..before[j] }
                    }),
                count == live_count(states(slots@).take(i as int)),
                count <= i,
            decreases slots@.len() - i,
        {
            let ghost was = slots@;
            if !held[i] {
                slots[i].current = false;
                slots[i].response = None;
            }
            if slots[i].current {
                count += 1;
            }
            i += 1;
            proof {
                assert(was[i - 1].state() == before[i - 1]);
                assert forall|j: int| 0 <= j < before.len() implies #[trigger] slots@[j].state()
                    == (if j >= i || held@[j] {
                    before[j]
                } else {
                    SlotState { current: false, response: None, ..before[j] }
                }) by {
                    assert(was[j].state() == was[j].state());
                }
                assert forall|j: int| 0 <= j < slots@.len() implies (#[trigger] slots@[j]).token.slot
                    == j by {
                    assert(was[j].token.slot == j);
                }
                let t = states(slots@).take(i as int);
                assert(t.drop_last() =~= states(was).take(i - 1));
                assert(t.last() == slots@[i - 1].state());
            }
        }
        self.slots = slots;
        proof {
            assert(self@.take(i as int) =~= self@);
            assert forall|j: int| 0 <= j < self@.len() implies #[trigger] self@[j] == pruned(
                before,
                held@,
            )[j] by {
                assert(self@[j] == self.slots@[j].state());
            }
            assert(self@ =~= pruned(before, held@));
        }
        count
    }
}

/// What a delivery answers.
pub open spec fn delivery_answer(found: bool, waited: bool) -> Result<()> {
    if found && waited {
        Ok(())
    } else {
        Err(Error::OrphanCompletion)
    }
}

/// What a delivery answers, given whether the key has a slot and whether
/// somebody still waits for it.
pub fn delivery_result(found: bool, waited: bool) -> (r: Result<()>)
    ensures
        r == delivery_answer(found, waited),
{
    if found && waited {
        Ok(())
    } else {
        Err(Error::OrphanCompletion)
    }
}

/// A slot that is found is a current one for the key.
pub proof fn lemma_slot_for(t: Seq<SlotState>, key: CompletionKey)
    ensures
        slot_for(t, key) matches Some(i) ==> 0 <= i < t.len() && t[i].current && t[i].key == key,
        slot_for(t, key) is None ==> forall|i: int|
            0 <= i < t.len() ==> !(#[trigger] t[i].current && t[i].key == key),
    decreases t.len(),
{
    if t.len() > 0 {
        lemma_slot_for(t.drop_last(), key);
        if slot_for(t, key) is None {
            assert forall|i: int| 0 <= i < t.len() implies !(#[trigger] t[i].current && t[i].key
                == key) by {
                if i < t.len() - 1 {
                    assert(t.drop_last()[i] == t[i]);
                }
            }
        } else if slot_for(t, key) != Some(t.len() - 1) {
            let i = slot_for(t, key)->0;
            assert(t.drop_last()[i] == t[i]);
        }
    }
}

/// Law: a completion reaches the newest registration for its key, which
/// then holds its bytes; every other registration keeps what it had.
pub proof fn law_register_deliver(t: Seq<SlotState>, key: CompletionKey, response: Seq<u8>, i: int)
    requires
        0 <= i < t.len(),
    ensures
        delivered(registered(t, key), key, response).len() == t.len() + 1,
        delivered(registered(t, key), key, response)[t.len() as int].completed,
        delivered(registered(t, key), key, response)[t.len() as int].response == Some(response),
        delivered(registered(t, key), key, response)[i].completed == t[i].completed,
        delivered(registered(t, key), key, response)[i].response == t[i].response,
{
}

/// Law: a completion for one key leaves the slots of all others alone.
pub proof fn law_deliver_independent(
    t: Seq<SlotState>,
    key: CompletionKey,
    response: Seq<u8>,
    i: int,
)
    requires
        0 <= i < t.len(),
        t[i].key != key,
    ensures
        delivered(t, key, response)[i] == t[i],
        delivered(t, key, response).len() == t.len(),
{
    lemma_slot_for(t, key);
}

/// Law: a completion that nothing waits for changes nothing.
pub proof fn law_orphan_ignored(t: Seq<SlotState>, key: CompletionKey, response: Seq<u8>)
    requires
        forall|i: int| 0 <= i < t.len() ==> (#[trigger] t[i]).key != key,
    ensures
        delivered(t, key, response) == t,
        slot_for(t, key) is None,
{
    lemma_slot_for(t, key);
}

// ---------------------------------------------------------------------------
// Routing
// ---------------------------------------------------------------------------
/// Non-completion sinks the message dispatcher can invoke.
///
/// Passed to [`route_message`]. The relations say what an implementation
/// does with what it is given; by default nothing is known of them.
pub trait MessageSink: Sized {
    /// `next` is what an `OfferChannel` leaves of `self`.
    open spec fn offered(self, offer: OfferChannel, next: Self) -> bool {
        true
    }

    /// `next` is what a `RescindChannelOffer` leaves of `self`.
    open spec fn rescinded(self, rescind: RescindChannelOffer, next: Self) -> bool {
        true
    }

    /// `next` is what a `TlConnectResult` leaves of `self`.
    open spec fn connect_answered(self, result: TlConnectResult, next: Self) -> bool {
        true
    }

    /// Called when the host delivers an `OfferChannel`.
    fn offer(&mut self, offer: &OfferChannel)
        ensures
            old(self).offered(*offer, *final(self)),
    ;

    /// Called when the host delivers a `RescindChannelOffer`.
    fn rescind(&mut self, rescind: &RescindChannelOffer)
        ensures
            old(self).rescinded(*rescind, *final(self)),
    ;

    /// Called when the host delivers a `TlConnectResult` (routed as a
    /// completion too, the sink sees a copy).
    fn tl_connect_result(&mut self, result: &TlConnectResult)
        ensures
            old(self).connect_answered(*result, *final(self)),
    ;
}

/// What routing a message answers.
pub open spec fn route_answer(bytes: Seq<u8>) -> Result<()> {
    match header_of(bytes) {
        Err(e) => Err(e),
        Ok(ty) => if ty.0 == MessageType::OFFER_CHANNEL {
            match parsed::<OfferChannel>(bytes) {
                Ok(_) => Ok(()),
                Err(e) => Err(e),
            }
        } else if ty.0 == MessageType::RESCIND_CHANNEL_OFFER {
            match parsed::<RescindChannelOffer>(bytes) {
                Ok(_) => Ok(()),
                Err(e) => Err(e),
            }
        } else {
            match key_of(bytes) {
                Ok(_) => Ok(()),
                Err(e) => Err(e),
            }
        },
    }
}

/// What routing a message leaves of the table.
pub open spec fn routed_table(t: Seq<SlotState>, bytes: Seq<u8>) -> Seq<SlotState> {
    match key_of(bytes) {
        Ok(Some(key)) => delivered(t, key, bytes),
        _ => t,
    }
}

/// `next` is what routing a message leaves of the sink.
pub open spec fn routed_sink<S: MessageSink>(s: S, bytes: Seq<u8>, next: S) -> bool {
    match parsed::<OfferChannel>(bytes) {
        Ok(offer) => s.offered(offer, next),
        Err(_) => match parsed::<RescindChannelOffer>(bytes) {
            Ok(rescind) => s.rescinded(rescind, next),
            Err(_) => match parsed::<TlConnectResult>(bytes) {
                Ok(result) => s.connect_answered(result, next),
                Err(_) => next == s,
            },
        },
    }
}

/// Dispatch a single message (starting at a `MessageHeader`) to the
/// completion table and/or the sink.
///
/// Routing rules:
///   * completion-type messages call [`CompletionTable::deliver`]. An
///     orphan completion (no matching pending request) is ignored, not
///     fatal: the host may race the guest here.
///   * `OfferChannel` goes to `sink.offer`.
///   * `RescindChannelOffer` goes to `sink.rescind`.
///   * `TlConnectResult` goes to `sink.tl_connect_result` and then to the
///     registered `handler`, whatever the sink.
///   * everything else is ignored.
pub fn route_message<S: MessageSink, H: ConnectResultHandler>(
    bytes: &[u8],
    table: &mut CompletionTable,
    sink: &mut S,
    handler: &mut Option<H>,
) -> (r: Result<()>)
    ensures
        r == route_answer(bytes@),
        final(table)@ == routed_table(old(table)@, bytes@),
        routed_sink(*old(sink), bytes@, *final(sink)),
        hvsock::handler_saw(*old(handler), bytes@, *final(handler)),
{
    let ty = match peek_header(bytes) {
        Ok(ty) => ty,
        Err(e) => return Err(e),
    };
    if ty.0 == MessageType::OFFER_CHANNEL {
        return match parse::<OfferChannel>(bytes) {
            Ok(offer) => {
                sink.offer(&offer);
                Ok(())
            },
            Err(e) => Err(e),
        };
    }
    if ty.0 == MessageType::RESCIND_CHANNEL_OFFER {
        return match parse::<RescindChannelOffer>(bytes) {
            Ok(rescind) => {
                sink.rescind(&rescind);
                Ok(())
            },
            Err(e) => Err(e),
        };
    }
    let key = match completion_key_for(bytes) {
        Ok(Some(key)) => key,
        Ok(None) => return Ok(()),
        Err(e) => return Err(e),
    };
    if ty.0 == MessageType::TL_CONNECT_RESULT {
        match parse::<TlConnectResult>(bytes) {
            Ok(result) => {
                sink.tl_connect_result(&result);
                dispatch_connect_result(handler, &result);
            },
            Err(e) => return Err(e),
        }
    }
    let mut copy: Vec<u8> = Vec::new();
    copy.extend_from_slice(bytes);
    proof {
        assert(copy@ =~= bytes@);
    }
    // Nobody waiting for it is no failure.
    let _ = table.deliver(key, copy);
    Ok(())
}

/// What routing a run of messages leaves of the table.
pub open spec fn table_after(t: Seq<SlotState>, messages: Seq<Seq<u8>>) -> Seq<SlotState>
    decreases messages.len(),
{
    if messages.len() == 0 {
        t
    } else {
        routed_table(table_after(t, messages.drop_last()), messages.last())
    }
}

/// `next` is what routing a run of messages leaves of the sink.
pub open spec fn sink_after<S: MessageSink>(s: S, messages: Seq<Seq<u8>>, next: S) -> bool
    decreases messages.len(),
{
    if messages.len() == 0 {
        next == s
    } else {
        exists|mid: S|
            sink_after(s, messages.drop_last(), mid) && #[trigger] routed_sink(
                mid,
                messages.last(),
                next,
            )
    }
}

/// One message more.
pub proof fn lemma_route_push<S: MessageSink>(
    t: Seq<SlotState>,
    s: S,
    messages: Seq<Seq<u8>>,
    mid: S,
    message: Seq<u8>,
    next: S,
)
    requires
        sink_after(s, messages, mid),
        routed_sink(mid, message, next),
    ensures
        table_after(t, messages.push(message)) == routed_table(table_after(t, messages), message),
        sink_after(s, messages.push(message), next),
{
    assert(messages.push(message).drop_last() =~= messages);
}

/// One run of messages after the other.
pub proof fn lemma_sink_after<S: MessageSink>(
    s: S,
    first: Seq<Seq<u8>>,
    mid: S,
    second: Seq<Seq<u8>>,
    next: S,
)
    requires
        sink_after(s, first, mid),
        sink_after(mid, second, next),
    ensures
        sink_after(s, first + second, next),
    decreases second.len(),
{
    if second.len() == 0 {
        assert(first + second =~= first);
    } else {
        let last = choose|last: S|
            sink_after(mid, second.drop_last(), last) && #[trigger] routed_sink(
                last,
                second.last(),
                next,
            );
        lemma_sink_after(s, first, mid, second.drop_last(), last);
        assert((first + second).drop_last() =~= first + second.drop_last());
        assert((first + second).last() == second.last());
    }
}

/// Routing keeps every slot, and a completed one stays completed.
pub proof fn lemma_table_after_keeps(t: Seq<SlotState>, messages: Seq<Seq<u8>>)
    ensures
        table_after(t, messages).len() == t.len(),
        forall|i: int|
            0 <= i < t.len() ==> (#[trigger] table_after(t, messages)[i]).key == t[i].key
                && table_after(t, messages)[i].current == t[i].current && (t[i].completed
                ==> table_after(t, messages)[i].completed),
    decreases messages.len(),
{
    if messages.len() > 0 {
        lemma_table_after_keeps(t, messages.drop_last());
        match key_of(messages.last()) {
            Ok(Some(key)) => {
                lemma_slot_for(table_after(t, messages.drop_last()), key);
            },
            _ => {},
        }
    }
}

} // verus!
