//! The guest against a host that is played by the test.
use std::cell::RefCell;
use std::collections::VecDeque;
use std::rc::Rc;
use vmbus_guest::channel::close_channel;
use vmbus_guest::channel::open_channel;
use vmbus_guest::channel::Channel;
use vmbus_guest::channel::ChannelState;
use vmbus_guest::connection;
use vmbus_guest::connection::encode_initiate_contact;
use vmbus_guest::connection::initial_connection_id;
use vmbus_guest::connection::parse_version_response;
use vmbus_guest::connection::MessagePump;
use vmbus_guest::connection::OfferCollector;
use vmbus_guest::devices::keyboard;
use vmbus_guest::devices::keyboard::Keyboard;
use vmbus_guest::devices::netvsp;
use vmbus_guest::devices::netvsp::msg_type;
use vmbus_guest::devices::netvsp::rndis::Rndis;
use vmbus_guest::devices::netvsp::Netvsp;
use vmbus_guest::devices::netvsp::RingRegion;
use vmbus_guest::error::TmkError;
use vmbus_guest::executor;
use vmbus_guest::executor::ConfigurationPacket;
use vmbus_guest::executor::Deserializer;
use vmbus_guest::executor::ExecutorError;
use vmbus_guest::executor::FunctionRegistry;
use vmbus_guest::executor::GrammarDeserializer;
use vmbus_guest::executor::Packet;
use vmbus_guest::executor::Reaction;
use vmbus_guest::executor::Sessions;
use vmbus_guest::functions::netvsp as nic_handlers;
use vmbus_guest::functions::netvsp::NicMemory;
use vmbus_guest::functions::read_input;
use vmbus_guest::functions::reset_sessions;
use vmbus_guest::functions::sessions::GuestSessions;
use vmbus_guest::functions::vmbus as bus_handlers;
use vmbus_guest::functions::vmbus::VmbusSession;
use vmbus_guest::functions::Boot;
use vmbus_guest::functions::HandlerError;
use vmbus_guest::functions::NicStep;
use vmbus_guest::functions::SafeMemoryMap;
use vmbus_guest::fuzz;
use vmbus_guest::fuzz::RawChannel;
use vmbus_guest::gpadl::establish_gpadl;
use vmbus_guest::gpadl::establish_gpadl_partial;
use vmbus_guest::gpadl::teardown_gpadl;
use vmbus_guest::gpadl::GpadlHandle;
use vmbus_guest::hv::HvInputVtl;
use vmbus_guest::hv::HvRegisterName;
use vmbus_guest::hv::HV_CALL_GET_VP_REGISTERS;
use vmbus_guest::hv::HV_CALL_POST_MESSAGE;
use vmbus_guest::hv::HV_CALL_SET_VP_REGISTERS;
use vmbus_guest::hv::HV_CALL_SIGNAL_EVENT;
use vmbus_guest::hvsock::send_hvsock_connect;
use vmbus_guest::hvsock::set_connect_result_handler;
use vmbus_guest::hvsock::ConnectResultHandler;
use vmbus_guest::hvsock::HandlerSink;
use vmbus_guest::hvsock::IgnoreResults;
use vmbus_guest::hypercalls::after_post;
use vmbus_guest::hypercalls::backoff_iters;
use vmbus_guest::hypercalls::get_vp_registers;
use vmbus_guest::hypercalls::post_message;
use vmbus_guest::hypercalls::AfterPost;
use vmbus_guest::hypercalls::HvCtx;
use vmbus_guest::hypercalls::HypercallConfig;
use vmbus_guest::hypercalls::HypercallTrait;
use vmbus_guest::hypercalls::SimpMem;
use vmbus_guest::interrupt::clear_slot;
use vmbus_guest::interrupt::drain_once;
use vmbus_guest::interrupt::read_slot;
use vmbus_guest::interrupt::slot_offset;
use vmbus_guest::interrupt::SimpPump;
use vmbus_guest::invariant_executor;
use vmbus_guest::message::encode_to_vec;
use vmbus_guest::message::parse;
use vmbus_guest::message::peek_header;
use vmbus_guest::message::CompletionKey;
use vmbus_guest::message::CompletionTable;
use vmbus_guest::protocol::AllOffersDelivered;
use vmbus_guest::protocol::ChannelId;
use vmbus_guest::protocol::FeatureFlags;
use vmbus_guest::protocol::GpadlBody;
use vmbus_guest::protocol::GpadlCreated;
use vmbus_guest::protocol::GpadlHeader;
use vmbus_guest::protocol::GpadlId;
use vmbus_guest::protocol::GpadlTeardown;
use vmbus_guest::protocol::GpadlTorndown;
use vmbus_guest::protocol::Guid;
use vmbus_guest::protocol::InitiateContact;
use vmbus_guest::protocol::MessageType;
use vmbus_guest::protocol::OfferChannel;
use vmbus_guest::protocol::OpenChannel;
use vmbus_guest::protocol::OpenResult;
use vmbus_guest::protocol::PacketFlags;
use vmbus_guest::protocol::PacketType;
use vmbus_guest::protocol::TlConnectRequest;
use vmbus_guest::protocol::TlConnectResult;
use vmbus_guest::protocol::UnloadComplete;
use vmbus_guest::protocol::Version;
use vmbus_guest::protocol::VersionResponse;
use vmbus_guest::protocol::VersionResponse2;
use vmbus_guest::ring::FlatRingMem;
use vmbus_guest::ring::RecvRing;
use vmbus_guest::ring::RingMem;
use vmbus_guest::ring::SendRing;
use vmbus_guest::state::IdCounter;
use vmbus_guest::state::VmbusState;
use vmbus_guest::synic::SynicPages;
use vmbus_guest::wire::Wire;
use vmbus_guest::Error;

// ---------------------------------------------------------------------------
// The host
// ---------------------------------------------------------------------------
/// One memory that both ends of a ring work on.
#[derive(Clone)]
struct Shared(Rc<RefCell<FlatRingMem>>);

impl Shared {
    fn new(len: usize) -> Self {
        Shared(Rc::new(RefCell::new(FlatRingMem::new(len))))
    }
}

impl RingMem for Shared {
    fn control(&self) -> Vec<u32> {
        self.0.borrow().control()
    }
    fn data_len(&self) -> usize {
        self.0.borrow().data_len()
    }
    fn load(&self, word: usize) -> u32 {
        self.0.borrow().load(word)
    }
    fn store(&mut self, word: usize, value: u32) {
        self.0.borrow_mut().store(word, value)
    }
    fn read_at(&self, off: usize, data: &mut [u8]) {
        self.0.borrow().read_at(off, data)
    }
    fn write_at(&mut self, off: usize, data: &[u8]) {
        self.0.borrow_mut().write_at(off, data)
    }
}

/// A device at the far end of a channel.
struct Device {
    from_guest: RecvRing<Shared>,
    to_guest: SendRing<Shared>,
    /// The NVSP version that is accepted.
    accepts: u32,
    /// What the guest sent, packet type and payload.
    seen: Vec<(u16, Vec<u8>)>,
    /// Replies are padded to this many bytes.
    pad_replies: usize,
}

#[derive(Default)]
struct Host {
    accepts: Vec<u32>,
    offers: Vec<OfferChannel>,
    silent: Vec<u32>,
    open_status: u32,
    gpadl_status: i32,
    /// Bytes of the GPADL under way that are still to come.
    gpadl_left: usize,
    posted: Vec<(u32, Vec<u8>)>,
    signals: Vec<u32>,
    eoms: usize,
    registers: Vec<Vec<u8>>,
    slot: VecDeque<Vec<u8>>,
    refuse_posts: usize,
    deny_posts: bool,
    device: Option<Device>,
    /// What the RNDIS side of the NIC was asked for.
    rndis: Vec<RndisCall>,
    /// The RNDIS call that fails.
    rndis_refused: Option<RndisCall>,
}

#[derive(Clone, Debug, PartialEq)]
enum RndisCall {
    Init,
    SetPacketFilter(u32),
    Send(u32, Vec<u8>, bool),
    RenewSend,
    RenewRecv,
}

impl Host {
    fn answer(&mut self, msg: &[u8]) {
        let ty = peek_header(msg).map(|t| t.0).unwrap_or(0);
        if self.silent.contains(&ty) {
            return;
        }
        if ty == MessageType::INITIATE_CONTACT {
            let ic: InitiateContact = parse(msg).unwrap();
            let ok = self.accepts.contains(&ic.version_requested);
            let mut v = VersionResponse::new_zeroed();
            v.version_supported = ok as u8;
            v.selected_version_or_connection_id = 0x77;
            let v2 = VersionResponse2 {
                version_response: v,
                supported_features: FeatureFlags::supported().0,
            };
            self.slot.push_back(encode_to_vec(&v2));
        } else if ty == MessageType::REQUEST_OFFERS {
            for o in self.offers.clone() {
                self.slot.push_back(encode_to_vec(&o));
            }
            self.slot.push_back(encode_to_vec(&AllOffersDelivered));
        } else if ty == MessageType::GPADL_HEADER {
            let h: GpadlHeader = parse(msg).unwrap();
            self.gpadl_left = h.len as usize - (msg.len() - 20);
            self.gpadl_done(h.channel_id, h.gpadl_id);
        } else if ty == MessageType::GPADL_BODY {
            let b: GpadlBody = parse(msg).unwrap();
            self.gpadl_left -= msg.len() - 16;
            self.gpadl_done(ChannelId(0), b.gpadl_id);
        } else if ty == MessageType::GPADL_TEARDOWN {
            let t: GpadlTeardown = parse(msg).unwrap();
            self.slot.push_back(encode_to_vec(&GpadlTorndown { gpadl_id: t.gpadl_id }));
        } else if ty == MessageType::OPEN_CHANNEL {
            let o: OpenChannel = parse(msg).unwrap();
            self.slot.push_back(encode_to_vec(&OpenResult {
                channel_id: o.channel_id,
                open_id: o.open_id,
                status: self.open_status,
            }));
        } else if ty == MessageType::UNLOAD {
            self.slot.push_back(encode_to_vec(&UnloadComplete));
        }
    }

    fn gpadl_done(&mut self, channel_id: ChannelId, gpadl_id: GpadlId) {
        if self.gpadl_left == 0 {
            let status = self.gpadl_status;
            self.slot.push_back(encode_to_vec(&GpadlCreated { channel_id, gpadl_id, status }));
        }
    }

    fn types(&self) -> Vec<u32> {
        self.posted.iter().map(|(_, m)| peek_header(m).unwrap().0).collect()
    }

    fn kick(&mut self) {
        if let Some(d) = &mut self.device {
            d.serve();
        }
    }
}

impl Device {
    fn new(send: Shared, recv: Shared, accepts: u32) -> Self {
        // The guest's send ring is read here, its recv ring written.
        Device {
            from_guest: RecvRing::new(send),
            to_guest: SendRing::new(recv),
            accepts,
            seen: Vec::new(),
            pad_replies: 0,
        }
    }

    fn serve(&mut self) {
        let mut buf = vec![0u8; 4096];
        loop {
            let (ty, tid, payload) = match self.from_guest.read(&mut buf) {
                Ok(p) => (
                    p.descriptor.packet_type.0,
                    p.descriptor.transaction_id,
                    p.payload.to_vec(),
                ),
                Err(_) => return,
            };
            let word = |i: usize| u32::from_le_bytes(payload[i..i + 4].try_into().unwrap());
            let mut reply: Vec<u8> = Vec::new();
            if payload.len() >= 8 && word(0) == msg_type::INIT {
                let status = if word(4) == self.accepts { 1u32 } else { 2 };
                for w in [msg_type::INIT_COMPLETE, 0, 0, status] {
                    reply.extend_from_slice(&w.to_le_bytes());
                }
            } else if payload.len() >= 8 && word(0) == msg_type::V1_SEND_RECV_BUF {
                for w in [msg_type::V1_SEND_RECV_BUF_COMPLETE, 1, 1, 0, 2048, 100, 0] {
                    reply.extend_from_slice(&w.to_le_bytes());
                }
            } else if payload.len() >= 8 && word(0) == msg_type::V1_SEND_SEND_BUF {
                for w in [msg_type::V1_SEND_SEND_BUF_COMPLETE, 1, 6144] {
                    reply.extend_from_slice(&w.to_le_bytes());
                }
            } else if payload.len() >= 8 && word(0) == 0xABCD {
                reply.extend_from_slice(&[1, 2, 3, 4]);
            }
            self.seen.push((ty, payload));
            if !reply.is_empty() {
                if reply.len() < self.pad_replies {
                    reply.resize(self.pad_replies, 0);
                }
                self.to_guest.write_completion(&reply, tid).unwrap();
            }
        }
    }
}

/// The guest's view of the host.
#[derive(Clone)]
struct Bus(Rc<RefCell<Host>>);

impl Bus {
    fn new(host: Host) -> Self {
        Bus(Rc::new(RefCell::new(host)))
    }
}

impl HypercallTrait for Bus {
    fn hypercall(
        &mut self,
        code: u64,
        input: &[u8],
        output: &mut [u8],
        _cfg: HypercallConfig,
    ) -> Result<(), TmkError> {
        let mut host = self.0.borrow_mut();
        let word = |i: usize| u32::from_le_bytes(input[i..i + 4].try_into().unwrap());
        if code == HV_CALL_POST_MESSAGE {
            if host.refuse_posts > 0 {
                host.refuse_posts -= 1;
                return Err(TmkError::InsufficientBuffers);
            }
            if host.deny_posts {
                return Err(TmkError::AccessDenied);
            }
            let len = word(12) as usize;
            let msg = input[16..16 + len].to_vec();
            host.posted.push((word(0), msg.clone()));
            if peek_header(&msg).is_ok() {
                host.answer(&msg);
            }
        } else if code == HV_CALL_SIGNAL_EVENT {
            host.signals.push(word(0));
            host.kick();
        } else if code == HV_CALL_SET_VP_REGISTERS {
            if input.len() == 16 + 32 {
                host.eoms += 1;
            }
            host.registers.push(input.to_vec());
        } else if code == HV_CALL_GET_VP_REGISTERS {
            for (i, b) in output.iter_mut().enumerate() {
                *b = i as u8;
            }
        }
        Ok(())
    }
}

impl SimpMem for Bus {
    fn read_message_slot(&mut self, gpa: u64) -> Vec<u8> {
        assert_eq!(gpa, 0x1000 + 512);
        let host = self.0.borrow();
        let mut slot = vec![0u8; 256];
        if let Some(m) = host.slot.front() {
            slot[0] = 1;
            slot[4] = m.len() as u8;
            slot[5] = (host.slot.len() > 1) as u8;
            slot[16..16 + m.len()].copy_from_slice(m);
        }
        slot
    }
    fn clear_message_slot(&mut self, _gpa: u64) {
        self.0.borrow_mut().slot.pop_front();
    }
}

impl Bus {
    fn rndis(ctx: &HvCtx<Bus>, call: RndisCall) -> Result<(), Error> {
        let mut host = ctx.inner().0.borrow_mut();
        let refused = host.rndis_refused.as_ref() == Some(&call);
        host.rndis.push(call);
        if refused {
            Err(Error::Timeout)
        } else {
            Ok(())
        }
    }
}

impl Rndis<Shared> for Bus {
    fn rndis_init(_nic: &mut Netvsp<Shared>, ctx: &mut HvCtx<Bus>) -> Result<(), Error> {
        Bus::rndis(ctx, RndisCall::Init)
    }
    fn set_packet_filter(
        _nic: &mut Netvsp<Shared>,
        ctx: &mut HvCtx<Bus>,
        filter: u32,
    ) -> Result<(), Error> {
        Bus::rndis(ctx, RndisCall::SetPacketFilter(filter))
    }
    fn send_rndis_raw(
        _nic: &mut Netvsp<Shared>,
        ctx: &mut HvCtx<Bus>,
        channel_type: u32,
        message: &[u8],
        completion: bool,
    ) -> Result<(), Error> {
        Bus::rndis(ctx, RndisCall::Send(channel_type, message.to_vec(), completion))
    }
    fn renew_send_buffer(_nic: &mut Netvsp<Shared>, ctx: &mut HvCtx<Bus>) -> Result<(), Error> {
        Bus::rndis(ctx, RndisCall::RenewSend)
    }
    fn renew_recv_buffer(_nic: &mut Netvsp<Shared>, ctx: &mut HvCtx<Bus>) -> Result<(), Error> {
        Bus::rndis(ctx, RndisCall::RenewRecv)
    }
}

type State = VmbusState<IgnoreResults>;

/// Collects offers; nobody hears of connect results.
fn sink() -> HandlerSink<OfferCollector, IgnoreResults> {
    HandlerSink { inner: OfferCollector::default(), handler: None }
}

const PAGES: SynicPages = SynicPages { simp_gpa: 0x1000, siefp_gpa: 0x2000 };

fn offer(id: u32, interface: Guid) -> OfferChannel {
    let mut o = OfferChannel::new_zeroed();
    o.channel_id = ChannelId(id);
    o.connection_id = 0x2000 + id;
    o.interface_id = interface;
    o
}

fn friendly() -> Host {
    let accepts = vec![Version::Copper.raw()];
    let offers = vec![offer(5, Guid::default()), offer(9, netvsp::interface_guid())];
    Host { accepts, offers, ..Host::default() }
}

/// A guest that has negotiated with `host`.
fn connected(host: Host) -> (Bus, HvCtx<Bus>, State) {
    let bus = Bus::new(host);
    let mut ctx = HvCtx::new(bus.clone());
    let mut state = State::new();
    vmbus_guest::init(&mut ctx, &mut state, Some(PAGES)).unwrap();
    (bus, ctx, state)
}

/// A region with its device at the far end.
fn region(bus: &Bus, accepts: u32) -> RingRegion<Shared> {
    let send_mem = Shared::new(32768);
    let recv_mem = Shared::new(32768);
    bus.0.borrow_mut().device = Some(Device::new(send_mem.clone(), recv_mem.clone(), accepts));
    RingRegion { base_gpa: 0x10_0000, send_mem, recv_mem }
}

fn open_channel_of(recv: &Shared) -> (Channel, Shared) {
    let channel = Channel {
        channel_id: ChannelId(4),
        open_id: 1,
        ring_gpadl: GpadlHandle { channel_id: ChannelId(4), gpadl_id: GpadlId(1) },
        connection_id: 0x2004,
        event_flag: 0,
        state: ChannelState::Open,
    };
    (channel, recv.clone())
}

// ---------------------------------------------------------------------------
// Hypercalls
// ---------------------------------------------------------------------------
#[test]
fn posts_are_retried_while_buffers_are_short() {
    let mut host = friendly();
    host.refuse_posts = 3;
    let bus = Bus::new(host);
    let mut ctx = HvCtx::new(bus.clone());
    post_message(&mut ctx, 4, &[1, 0, 0, 0, 0, 0, 0, 0]).unwrap();
    assert_eq!(bus.0.borrow().posted.len(), 1);
    assert_eq!(bus.0.borrow().refuse_posts, 0);
    // Any other failure is final.
    bus.0.borrow_mut().deny_posts = true;
    assert!(matches!(
        post_message(&mut ctx, 4, &[1]),
        Err(Error::Hypercall(TmkError::AccessDenied))
    ));
}

#[test]
fn what_follows_a_post_depends_on_the_reply() {
    assert!(matches!(after_post(0, Ok(())), AfterPost::Done(Ok(()))));
    assert!(matches!(
        after_post(0, Err(TmkError::AccessDenied)),
        AfterPost::Done(Err(Error::Hypercall(TmkError::AccessDenied)))
    ));
    match after_post(1, Err(TmkError::InsufficientBuffers)) {
        AfterPost::Again { idle } => assert_eq!(idle, backoff_iters(1)),
        AfterPost::Done(_) => panic!("gave up"),
    }
}

#[test]
fn long_posts_are_truncated() {
    let bus = Bus::new(Host::default());
    let mut ctx = HvCtx::new(bus.clone());
    fuzz::post_raw_message(&mut ctx, 9, &[0xEEu8; 300]).unwrap();
    let host = bus.0.borrow();
    assert_eq!(host.posted[0].0, 9);
    assert_eq!(host.posted[0].1, vec![0xEEu8; 240]);
}

#[test]
fn backoff_doubles_and_caps() {
    assert_eq!(backoff_iters(0), 10_000);
    assert_eq!(backoff_iters(1), 20_000);
    assert_eq!(backoff_iters(100), backoff_iters(1000));
}

#[test]
fn registers_are_read_in_order() {
    let mut ctx = HvCtx::new(Bus::new(Host::default()));
    let names = [HvRegisterName(1), HvRegisterName(2)];
    let vtl = HvInputVtl(HvInputVtl::CURRENT_VTL);
    let values = get_vp_registers(&mut ctx, vtl, &names).unwrap();
    assert_eq!(values, vec![0x0706_0504_0302_0100, 0x1716_1514_1312_1110]);
    assert!(get_vp_registers(&mut ctx, vtl, &[]).unwrap().is_empty());
}

// ---------------------------------------------------------------------------
// Message slots
// ---------------------------------------------------------------------------
#[test]
fn slots() {
    assert_eq!(slot_offset(2), 512);
    let mut slot = vec![0u8; 256];
    assert!(read_slot(&slot).unwrap().is_none());
    assert!(matches!(read_slot(&slot[..255]), Err(Error::Parse { .. })));
    slot[0] = 1;
    slot[4] = 3;
    slot[5] = 1;
    slot[16..19].copy_from_slice(&[7, 8, 9]);
    {
        let view = read_slot(&slot).unwrap().unwrap();
        assert!(view.message_pending);
        assert_eq!(view.payload, &[7, 8, 9]);
    }
    slot[4] = 241;
    assert!(matches!(read_slot(&slot), Err(Error::Parse { .. })));
    clear_slot(&mut slot);
    assert!(read_slot(&slot).unwrap().is_none());
    assert_eq!(slot[4], 241);
}

#[test]
fn draining_routes_clears_and_acknowledges() {
    let mut host = Host::default();
    host.slot.push_back(encode_to_vec(&UnloadComplete));
    host.slot.push_back(vec![1, 2, 3]);
    let bus = Bus::new(host);
    let mut ctx = HvCtx::new(bus.clone());
    let mut table = CompletionTable::new();
    let handle = table.register(CompletionKey::UnloadComplete);
    let mut sink = sink();
    let slot = 0x1000 + 512;
    assert!(drain_once(&mut ctx, slot, &mut table, &mut sink).unwrap());
    assert!(handle.completed(&table));
    assert_eq!(bus.0.borrow().eoms, 1);
    // What does not parse stays in the slot.
    assert!(drain_once(&mut ctx, slot, &mut table, &mut sink).is_err());
    assert_eq!(bus.0.borrow().slot.len(), 1);
}

#[test]
fn polling_is_bounded() {
    let bus = Bus::new(Host::default());
    let mut ctx = HvCtx::new(bus.clone());
    let mut table = CompletionTable::new();
    let mut sink = sink();
    let handle = table.register(CompletionKey::UnloadComplete);
    let mut pump = SimpPump::new(0x1000).with_max_retries(3);
    assert!(matches!(
        pump.poll_until(&mut ctx, &mut table, &handle, &mut sink),
        Err(Error::Timeout)
    ));
    // Offers on the way are collected, and the poll stops at the completion.
    for m in [
        encode_to_vec(&offer(3, Guid::default())),
        encode_to_vec(&UnloadComplete),
        encode_to_vec(&offer(4, Guid::default())),
    ] {
        bus.0.borrow_mut().slot.push_back(m);
    }
    pump.poll_until(&mut ctx, &mut table, &handle, &mut sink).unwrap();
    assert_eq!(handle.take_response(&mut table), Some(encode_to_vec(&UnloadComplete)));
    assert_eq!(sink.inner.offers.len(), 1);
    assert_eq!(sink.inner.offers[0].channel_id, ChannelId(3));
    assert_eq!(bus.0.borrow().slot.len(), 1);
    assert_eq!(bus.0.borrow().eoms, 2);
}

#[test]
fn a_page_image_is_memory_too() {
    let mut page = vec![0u8; 4096];
    let message = encode_to_vec(&UnloadComplete);
    page[512] = 1;
    page[516] = message.len() as u8;
    page[528..528 + message.len()].copy_from_slice(&message);
    assert_eq!(page.read_message_slot(512)[0], 1);
    page.clear_message_slot(512);
    assert_eq!(page[512..516], [0, 0, 0, 0]);
    assert_eq!(page[516], message.len() as u8);
    assert!(page.read_message_slot(4000).is_empty());
}

// ---------------------------------------------------------------------------
// Connection
// ---------------------------------------------------------------------------
#[test]
fn negotiates_the_newest_version() {
    let (bus, ctx, state) = connected(friendly());
    let agreed = connection::connection(&state).unwrap();
    assert_eq!(agreed.selected_version, Version::Copper);
    assert_eq!(agreed.post_message_connection_id, 0x77);
    assert_eq!(agreed.feature_flags.0, FeatureFlags::supported().0);
    let host = bus.0.borrow();
    assert_eq!(host.posted.len(), 1);
    assert_eq!(host.posted[0].0, 4);
    // SIMP, SIEFP, SINT and SCONTROL were written in one call.
    assert_eq!(host.registers.len(), 1);
    assert!(Rc::ptr_eq(&ctx.inner().0, &bus.0));
}

#[test]
fn negotiation_walks_down_the_ladder() {
    let mut host = friendly();
    host.accepts = vec![Version::Win8_1.raw()];
    let (bus, _ctx, state) = connected(host);
    let agreed = connection::connection(&state).unwrap();
    assert_eq!(agreed.selected_version, Version::Win8_1);
    // Below 5.0 the legacy id is kept.
    assert_eq!(agreed.post_message_connection_id, 1);
    let host = bus.0.borrow();
    let asked: Vec<u32> = host
        .posted
        .iter()
        .map(|(_, m)| parse::<InitiateContact>(m).unwrap().version_requested)
        .collect();
    let ladder: Vec<u32> = Version::NEGOTIATION_LADDER[..7].iter().map(|v| v.raw()).collect();
    assert_eq!(asked, ladder);
}

#[test]
fn no_common_version_is_a_mismatch() {
    let mut host = friendly();
    host.accepts = vec![];
    let bus = Bus::new(host);
    let mut ctx = HvCtx::new(bus.clone());
    let mut state = State::new();
    assert!(matches!(
        vmbus_guest::init(&mut ctx, &mut state, Some(PAGES)),
        Err(Error::VersionMismatch)
    ));
    assert!(connection::connection(&state).is_none());
    assert_eq!(bus.0.borrow().posted.len(), 8);
}

#[test]
fn contact_messages() {
    assert_eq!(initial_connection_id(Version::Win10), 1);
    assert_eq!(initial_connection_id(Version::Win10Rs3_1), 4);
    let short = encode_initiate_contact(Version::Win8, None, FeatureFlags::new());
    assert_eq!(short.len(), 40);
    let long = encode_initiate_contact(
        Version::Copper,
        Some(connection::client_id()),
        FeatureFlags::supported(),
    );
    assert_eq!(long.len(), 56);
    let parsed = parse_version_response(&encode_to_vec(&VersionResponse::new_zeroed())).unwrap();
    assert!(!parsed.version_supported);
    assert_eq!(parsed.supported_features.0, 0);
}

#[test]
fn offers_come_in_order() {
    let (bus, mut ctx, mut state) = connected(friendly());
    let offers = vmbus_guest::request_offers(&mut ctx, &mut state).unwrap();
    let ids: Vec<u32> = offers.iter().map(|o| o.channel_id.0).collect();
    assert_eq!(ids, vec![5, 9]);
    // All but the last message had another one waiting.
    assert_eq!(bus.0.borrow().eoms, 2);
}

#[test]
fn unload_clears_the_connection() {
    let (bus, mut ctx, mut state) = connected(friendly());
    vmbus_guest::unload(&mut ctx, &mut state).unwrap();
    assert!(connection::connection(&state).is_none());
    assert!(matches!(
        vmbus_guest::request_offers(&mut ctx, &mut state),
        Err(Error::VersionMismatch)
    ));
    assert!(matches!(
        vmbus_guest::unload(&mut ctx, &mut state),
        Err(Error::VersionMismatch)
    ));
    let posted = bus.0.borrow().posted.len();
    let gpadl = GpadlHandle { channel_id: ChannelId(5), gpadl_id: GpadlId(1) };
    let refused = open_channel(
        &mut ctx,
        &mut state,
       
        &offer(5, Guid::default()),
        gpadl,
        8,
        0,
        0,
    );
    assert!(matches!(refused, Err(Error::VersionMismatch)));
    assert_eq!(bus.0.borrow().posted.len(), posted);
}

#[test]
fn ids_count_up_and_wrap() {
    let mut ids = IdCounter::new();
    assert_eq!(ids.allocate(), 1);
    assert_eq!(ids.allocate(), 2);
    let mut last = IdCounter { next: u32::MAX };
    assert_eq!(last.allocate(), u32::MAX);
    assert_eq!(last.allocate(), 0);
}

// ---------------------------------------------------------------------------
// Channels and GPADLs
// ---------------------------------------------------------------------------
#[test]
fn gpadls_are_made_and_torn_down() {
    let (bus, mut ctx, mut state) = connected(friendly());
    let pfns: Vec<u64> = (0..60).collect();
    let g = establish_gpadl(
        &mut ctx,
        &mut state,
       
        ChannelId(5),
        60 * 4096,
        &pfns,
    )
    .unwrap();
    assert_eq!(g.id(), GpadlId(1));
    assert_eq!(g.channel_id(), ChannelId(5));
    teardown_gpadl(&mut ctx, &mut state, g).unwrap();
    assert_eq!(
        bus.0.borrow().types()[1..],
        [
            MessageType::GPADL_HEADER,
            MessageType::GPADL_BODY,
            MessageType::GPADL_BODY,
            MessageType::GPADL_TEARDOWN,
        ]
    );
    bus.0.borrow_mut().gpadl_status = -1;
    assert!(establish_gpadl(
        &mut ctx,
        &mut state,
       
        ChannelId(5),
        4096,
        &[1],
    )
    .is_err());
    // A length that is not the pages' is refused before anything is sent.
    let sent = bus.0.borrow().posted.len();
    assert!(matches!(
        establish_gpadl(&mut ctx, &mut state, ChannelId(5), 4096, &[1, 2]),
        Err(Error::Parse { .. })
    ));
    assert_eq!(bus.0.borrow().posted.len(), sent);
    // Posting alone waits for nothing.
    bus.0.borrow_mut().silent = vec![MessageType::GPADL_HEADER];
    let g = establish_gpadl_partial(
        &mut ctx,
        state.connection,
        ChannelId(5),
        GpadlId(40),
        4096,
        &[7],
    )
    .unwrap();
    assert_eq!(g.id(), GpadlId(40));
    assert_eq!(bus.0.borrow().posted.len(), sent + 1);
    assert!(matches!(
        establish_gpadl_partial(&mut ctx, None, ChannelId(5), GpadlId(40), 4096, &[7]),
        Err(Error::VersionMismatch)
    ));
    assert!(matches!(
        establish_gpadl_partial(&mut ctx, state.connection, ChannelId(5), GpadlId(40), 9, &[7]),
        Err(Error::Parse { .. })
    ));
}

#[test]
fn channels_open_signal_and_close() {
    let (bus, mut ctx, mut state) = connected(friendly());
    let o = offer(5, Guid::default());
    let gpadl = GpadlHandle { channel_id: ChannelId(5), gpadl_id: GpadlId(3) };
    let chan = open_channel(&mut ctx, &mut state, &o, gpadl, 8, 0x2005, 5)
        .unwrap();
    assert_eq!(chan.channel_id(), ChannelId(5));
    assert_eq!(chan.state(), ChannelState::Open);
    assert_eq!(chan.event_flag(), 5);
    assert_eq!(chan.open_id(), 1);
    chan.signal(&mut ctx).unwrap();
    assert_eq!(bus.0.borrow().signals, vec![0x2005]);
    close_channel(&mut ctx, &state, chan).unwrap();
    let types = bus.0.borrow().types();
    assert_eq!(
        types[types.len() - 2..],
        [MessageType::CLOSE_CHANNEL, MessageType::REL_ID_RELEASED]
    );
    bus.0.borrow_mut().open_status = 5;
    assert!(matches!(
        open_channel(&mut ctx, &mut state, &o, gpadl, 8, 0, 0),
        Err(Error::Parse { .. })
    ));
}

#[test]
fn rescinded_channels_are_only_released() {
    let (bus, mut ctx, state) = connected(friendly());
    let (mut chan, _) = open_channel_of(&Shared::new(64));
    chan.state = ChannelState::Rescinded;
    assert!(matches!(chan.signal(&mut ctx), Err(Error::Rescinded)));
    close_channel(&mut ctx, &state, chan).unwrap();
    assert_eq!(bus.0.borrow().types()[1..], [MessageType::REL_ID_RELEASED]);
}

// ---------------------------------------------------------------------------
// Hv-sockets
// ---------------------------------------------------------------------------
struct Recorder(Rc<RefCell<Vec<i32>>>);

impl ConnectResultHandler for Recorder {
    fn handle(&mut self, result: &TlConnectResult) {
        self.0.borrow_mut().push(result.status);
    }
}

#[test]
fn connect_results_reach_the_handler() {
    let mut host = friendly();
    let mut result = TlConnectResult::new_zeroed();
    result.status = -7;
    host.slot.push_back(encode_to_vec(&result));
    let bus = Bus::new(host);
    let mut ctx = HvCtx::new(bus.clone());
    let mut state: VmbusState<Recorder> = VmbusState::new();
    let heard = Rc::new(RefCell::new(Vec::new()));
    set_connect_result_handler(&mut state.handler, Recorder(heard.clone()));
    vmbus_guest::init(&mut ctx, &mut state, Some(PAGES)).unwrap();
    assert_eq!(*heard.borrow(), vec![-7]);

    // Results that are drained on behalf of nobody reach it as well.
    for status in [3, 4] {
        result.status = status;
        bus.0.borrow_mut().slot.push_back(encode_to_vec(&result));
    }
    assert_eq!(fuzz::drain_pending(&mut ctx, &mut state, 64).unwrap(), 2);
    assert_eq!(*heard.borrow(), vec![-7, 3, 4]);
    assert!(state.handler.is_some());

    let mut service = Guid::default();
    service.data1 = 3;
    send_hvsock_connect(&mut ctx, state.connection, Guid::default(), service, None).unwrap();
    let host = bus.0.borrow();
    let (conn, bytes) = host.posted.last().unwrap();
    assert_eq!(*conn, 0x77);
    assert_eq!(parse::<TlConnectRequest>(bytes).unwrap().service_id.data1, 3);
    assert!(matches!(
        send_hvsock_connect(&mut HvCtx::new(bus.clone()), None, service, service, None),
        Err(Error::VersionMismatch)
    ));
}

// ---------------------------------------------------------------------------
// Keyboard
// ---------------------------------------------------------------------------
fn pipe(words: &[u32]) -> Vec<u8> {
    let mut out = Vec::new();
    for w in words {
        out.extend_from_slice(&w.to_le_bytes());
    }
    out
}

#[test]
fn keyboard_negotiates_and_counts_keystrokes() {
    let bus = Bus::new(Host::default());
    let mut ctx = HvCtx::new(bus.clone());
    let (send, recv) = (Shared::new(4096), Shared::new(4096));
    let (channel, recv_mem) = open_channel_of(&recv);
    let mut kbd = Keyboard::new(channel, send.clone(), recv_mem);
    let mut host = SendRing::new(recv.clone());
    // A keystroke before the response is skipped.
    host.write_inband(&pipe(&[keyboard::MESSAGE_EVENT, 0x1E, 0]), PacketFlags::new(), 0)
        .unwrap();
    host.write_inband(
        &pipe(&[keyboard::MESSAGE_PROTOCOL_RESPONSE, 1]),
        PacketFlags::new(),
        0,
    )
    .unwrap();
    assert!(kbd.negotiate_version(&mut ctx, keyboard::VERSION_WIN8, 10).unwrap());
    let mut wire = RecvRing::new(send.clone());
    let mut buf = [0u8; 64];
    let sent = wire.read(&mut buf).unwrap().payload.to_vec();
    assert_eq!(
        sent,
        pipe(&[keyboard::MESSAGE_PROTOCOL_REQUEST, keyboard::VERSION_WIN8])
    );
    kbd.set_leds(&mut ctx, 2).unwrap();
    for _ in 0..3 {
        host.write_inband(&pipe(&[keyboard::MESSAGE_EVENT, 0x1E, 0]), PacketFlags::new(), 0)
            .unwrap();
    }
    assert_eq!(kbd.poll_keystrokes(10).unwrap(), 3);
    assert_eq!(kbd.channel().channel_id(), ChannelId(4));
    assert_eq!(kbd.into_channel().channel_id(), ChannelId(4));
}

#[test]
fn the_longest_keyboard_messages_are_read() {
    let mut ctx = HvCtx::new(Bus::new(Host::default()));
    let (send, recv) = (Shared::new(4096), Shared::new(4096));
    let (channel, recv_mem) = open_channel_of(&recv);
    let mut kbd = Keyboard::new(channel, send, recv_mem);
    let mut host = SendRing::new(recv);
    let mut long = pipe(&[keyboard::MESSAGE_EVENT, 0x1E, 0]);
    long.resize(keyboard::MAXIMUM_MESSAGE_SIZE, 0);
    // One is drained and counted.
    host.write_inband(&long, PacketFlags::new(), 0).unwrap();
    assert_eq!(kbd.poll_keystrokes(2).unwrap(), 1);
    // Another does not end the version handshake.
    host.write_inband(&long, PacketFlags::new(), 0).unwrap();
    let accepted = pipe(&[keyboard::MESSAGE_PROTOCOL_RESPONSE, 1]);
    host.write_inband(&accepted, PacketFlags::new(), 0).unwrap();
    assert!(kbd.negotiate_version(&mut ctx, keyboard::VERSION_WIN8, 2).unwrap());
    // One that is longer is refused, and stays.
    long.push(0);
    host.write_inband(&long, PacketFlags::new(), 0).unwrap();
    for _ in 0..2 {
        assert!(matches!(kbd.poll_keystrokes(1), Err(Error::Parse { .. })));
    }
}

#[test]
fn keyboard_packets() {
    let event = keyboard::parse_packet(&pipe(&[keyboard::MESSAGE_EVENT, 0x1E, 2])).unwrap();
    assert!(matches!(event, keyboard::InboundPacket::Event(_)));
    assert!(keyboard::parse_packet(&pipe(&[keyboard::MESSAGE_EVENT])).is_err());
    assert!(matches!(
        keyboard::parse_packet(&pipe(&[99, 0, 0])).unwrap(),
        keyboard::InboundPacket::Other { message_type: 99, payload_len: 8 }
    ));
    assert!(matches!(
        keyboard::parse_packet(&[1]).unwrap(),
        keyboard::InboundPacket::Other { message_type: 0, payload_len: 0 }
    ));
}

// ---------------------------------------------------------------------------
// NIC
// ---------------------------------------------------------------------------
#[test]
fn nic_comes_up() {
    let (bus, mut ctx, mut state) = connected(friendly());
    let o = offer(9, netvsp::interface_guid());
    let accepts = netvsp::Version::V5.raw();
    let r = region(&bus, accepts);
    let mut nic = Netvsp::open(&mut ctx, &mut state, &o, Some(r)).unwrap();
    assert!(nic.version_typed().is_err());
    assert!(nic.send_ndis_config(&mut ctx, 1514).is_err());
    assert_eq!(nic.negotiate_version(&mut ctx).unwrap(), netvsp::Version::V5);
    nic.send_ndis_config(&mut ctx, 1514).unwrap();
    nic.send_ndis_version(&mut ctx).unwrap();
    nic.establish_recv_buffer(&mut ctx, &mut state, 262144, Some(0x20_0000)).unwrap();
    nic.establish_send_buffer(&mut ctx, &mut state, 1048576, Some(0x40_0000)).unwrap();
    assert_eq!(nic.recv_section_size(), 2048);
    assert_eq!(nic.recv_section_count, 100);
    assert_eq!(nic.send_section_size(), 6144);
    assert_eq!(nic.send_section_count, 170);
    assert!(nic
        .establish_recv_buffer(&mut ctx, &mut state, 4096, Some(0))
        .is_err());
    let host = bus.0.borrow();
    let seen = &host.device.as_ref().unwrap().seen;
    // Two versions were asked for, V61 and V6, before V5.
    let kinds: Vec<u32> =
        seen.iter().map(|(_, p)| u32::from_le_bytes(p[..4].try_into().unwrap())).collect();
    assert_eq!(kinds[..3], [msg_type::INIT; 3]);
    assert_eq!(
        kinds[3..],
        [
            msg_type::V2_SEND_NDIS_CONFIG,
            msg_type::V1_SEND_NDIS_VERSION,
            msg_type::V1_SEND_RECV_BUF,
            msg_type::V1_SEND_SEND_BUF,
        ]
    );
    // NDIS 6.30 from V5 on.
    assert_eq!(seen[4].1[4..12], [6, 0, 0, 0, 30, 0, 0, 0]);
    assert_eq!(seen[3].1[4..8], 1514u32.to_le_bytes());
}

#[test]
fn nic_without_memory() {
    let (bus, mut ctx, mut state) = connected(friendly());
    let o = offer(9, netvsp::interface_guid());
    let none: Option<RingRegion<Shared>> = None;
    assert!(matches!(
        Netvsp::open(&mut ctx, &mut state, &o, none),
        Err(Error::Parse { reason: "netvsp ring allocation failed", .. })
    ));
    let r = region(&bus, netvsp::Version::V1.raw());
    let mut nic = Netvsp::open(&mut ctx, &mut state, &o, Some(r)).unwrap();
    nic.negotiate_version(&mut ctx).unwrap();
    for (size, gpa) in [(0usize, Some(0u64)), (4095, Some(0)), (4096, None)] {
        assert!(nic.establish_recv_buffer(&mut ctx, &mut state, size, gpa).is_err());
    }
    // V1 has no NDIS configuration: nothing is sent.
    let seen = bus.0.borrow().device.as_ref().unwrap().seen.len();
    nic.send_ndis_config(&mut ctx, 1500).unwrap();
    assert_eq!(bus.0.borrow().device.as_ref().unwrap().seen.len(), seen);
}

#[test]
fn a_completion_of_512_bytes_is_read() {
    for (len, read) in [(512usize, true), (520, false)] {
        let (bus, mut ctx, mut state) = connected(friendly());
        let o = offer(9, netvsp::interface_guid());
        let r = region(&bus, netvsp::Version::V5.raw());
        let mut nic = Netvsp::open(&mut ctx, &mut state, &o, Some(r)).unwrap();
        bus.0.borrow_mut().device.as_mut().unwrap().pad_replies = len;
        assert_eq!(nic.negotiate_version(&mut ctx).is_ok(), read);
    }
}

#[test]
fn nic_answers() {
    assert!(netvsp::parse_init_complete(&pipe(&[msg_type::INIT_COMPLETE, 0, 0, 1])).unwrap());
    assert!(!netvsp::parse_init_complete(&pipe(&[msg_type::INIT_COMPLETE, 0, 0, 3])).unwrap());
    assert!(netvsp::parse_init_complete(&[1, 2]).is_err());
    assert!(netvsp::parse_init_complete(&pipe(&[msg_type::INIT, 0, 0, 1])).is_err());
    let recv = msg_type::V1_SEND_RECV_BUF_COMPLETE;
    let ok = pipe(&[recv, 1, 1, 0, 100, 10, 0]);
    assert_eq!(netvsp::parse_recv_buf_complete(&ok, 1000).unwrap(), (100, 10));
    assert!(netvsp::parse_recv_buf_complete(&ok, 999).is_err());
    for bad in [
        pipe(&[recv, 2, 1, 0, 100, 10, 0]),
        pipe(&[recv, 1, 2, 0, 100, 10, 0]),
        pipe(&[recv, 1, 1, 8, 100, 10, 0]),
        pipe(&[recv, 1, 1, 0, 67, 10, 0]),
        pipe(&[recv, 1, 1, 0]),
    ] {
        assert!(netvsp::parse_recv_buf_complete(&bad, 100_000).is_err());
    }
    let send = msg_type::V1_SEND_SEND_BUF_COMPLETE;
    assert_eq!(netvsp::parse_send_buf_complete(&pipe(&[send, 1, 300]), 1000).unwrap(), (300, 3));
    assert!(netvsp::parse_send_buf_complete(&pipe(&[send, 1, 2000]), 1000).is_err());
    assert!(netvsp::parse_send_buf_complete(&pipe(&[send, 1, 67]), 1000).is_err());
    assert_eq!(netvsp::frame_size_for(netvsp::Version::V61), 40);
    assert_eq!(netvsp::frame_size_for(netvsp::Version::V5), 28);
    let mut frame = [0xFFu8; 28];
    let body = netvsp::NvspMsgInit { protocol_version: 2, protocol_version2: 3 };
    let n = netvsp::encode_message(msg_type::INIT, &body, netvsp::Version::V1, &mut frame).unwrap();
    assert_eq!(n, 28);
    let (ty, rest) = netvsp::parse_header(&frame).unwrap();
    assert_eq!(ty, msg_type::INIT);
    assert_eq!(rest[..8], [2, 0, 0, 0, 3, 0, 0, 0]);
    assert!(rest[8..].iter().all(|b| *b == 0));
}

// ---------------------------------------------------------------------------
// Raw channels
// ---------------------------------------------------------------------------
#[test]
fn raw_messages_wait_for_a_reply() {
    let (bus, mut ctx, mut state) = connected(friendly());
    let unload = encode_to_vec(&vmbus_guest::protocol::Unload);
    let reply =
        fuzz::post_raw_message_wait(&mut ctx, &mut state, 3, &unload, 10).unwrap();
    assert_eq!(reply, Some(encode_to_vec(&UnloadComplete)));
    assert_eq!(bus.0.borrow().posted.last().unwrap().0, 3);
    // No reply within the bound.
    let none = fuzz::post_raw_message_wait(&mut ctx, &mut state, 3, &[9; 8], 10).unwrap();
    assert_eq!(none, None);
    // What does not parse comes back as it is, and the slot is free.
    bus.0.borrow_mut().slot.push_back(vec![1, 2, 3]);
    bus.0.borrow_mut().slot.push_back(vec![4]);
    assert_eq!(
        fuzz::poll_capture(&mut ctx, &mut state, 1).unwrap(),
        Some(vec![1, 2, 3])
    );
    assert_eq!(fuzz::drain_pending(&mut ctx, &mut state, 64).unwrap(), 1);
    assert_eq!(fuzz::drain_pending(&mut ctx, &mut state, 0).unwrap(), 0);
    let mut fresh = State::new();
    assert!(matches!(
        fuzz::drain_pending(&mut ctx, &mut fresh, 1),
        Err(Error::VersionMismatch)
    ));
}

#[test]
fn drains_no_more_than_asked() {
    let (bus, mut ctx, mut state) = connected(friendly());
    for i in 0..5u8 {
        bus.0.borrow_mut().slot.push_back(vec![i]);
    }
    assert_eq!(fuzz::drain_pending(&mut ctx, &mut state, 3).unwrap(), 3);
    assert_eq!(bus.0.borrow().slot.len(), 2);
}

#[test]
fn raw_channels_carry_packets() {
    let (bus, mut ctx, mut state) = connected(friendly());
    let o = offer(5, Guid::default());
    let r = region(&bus, 0);
    let recv_mem = r.recv_mem.clone();
    let mut chan = RawChannel::open(&mut ctx, &mut state, &o, Some(r)).unwrap();
    assert_eq!(chan.base_gpa, 0x10_0000);
    chan.send_packet(&mut ctx, PacketType(0x33), &[1, 2], PacketFlags::new()).unwrap();
    assert_eq!(bus.0.borrow().device.as_ref().unwrap().seen[0].0, 0x33);
    assert_eq!(chan.next_transaction_id(), 2);
    // A descriptor of type 6, 16 bytes up to the payload, 24 in all.
    let desc = [6, 0, 2, 0, 3, 0, 0, 0, 1, 0, 0, 0, 0, 0, 0, 0];
    chan.send_raw_packet(&mut ctx, &desc, &[7; 8]).unwrap();
    assert_eq!(
        bus.0.borrow().device.as_ref().unwrap().seen[1],
        (6, vec![7; 8])
    );
    assert_eq!(chan.next_transaction_id(), 3);
    let mut host = SendRing::new(recv_mem);
    for _ in 0..4 {
        host.write_inband(&[0; 32], PacketFlags::new(), 0).unwrap();
    }
    assert_eq!(chan.drain_recv(3), 3);
    assert_eq!(chan.drain_recv(3), 1);
    assert_eq!(chan.channel().connection_id(), 0x2005);
    chan.close(&mut ctx, &mut state).unwrap();
    let types = bus.0.borrow().types();
    assert_eq!(
        types[types.len() - 3..],
        [
            MessageType::CLOSE_CHANNEL,
            MessageType::REL_ID_RELEASED,
            MessageType::GPADL_TEARDOWN,
        ]
    );
}

#[test]
fn a_refused_raw_channel_gives_its_gpadl_back() {
    let mut host = friendly();
    host.open_status = 3;
    let (bus, mut ctx, mut state) = connected(host);
    let r = region(&bus, 0);
    let o = offer(5, Guid::default());
    assert!(RawChannel::open(&mut ctx, &mut state, &o, Some(r)).is_err());
    assert_eq!(*bus.0.borrow().types().last().unwrap(), MessageType::GPADL_TEARDOWN);
    let none: Option<RingRegion<Shared>> = None;
    assert!(matches!(
        RawChannel::open(&mut ctx, &mut state, &o, none),
        Err(Error::Parse { reason: "raw channel ring allocation failed", .. })
    ));
}

// ---------------------------------------------------------------------------
// Handlers
// ---------------------------------------------------------------------------
type Cell = Option<VmbusSession<Bus, Shared>>;

fn boot(bus: &Bus) -> Result<Boot<Bus>, TmkError> {
    Ok(Boot { ctx: bus.clone(), pages: Some(PAGES) })
}

#[test]
fn input_is_bounded() {
    let mut mem: Vec<u8> = (0..100).collect();
    assert_eq!(read_input(&mut mem, 10, 3, 4).unwrap(), vec![10, 11, 12]);
    assert_eq!(read_input(&mut mem, 1000, 0, 4).unwrap(), Vec::<u8>::new());
    assert!(matches!(
        read_input(&mut mem, 0, 5, 4),
        Err(HandlerError::TooLong { len: 5, max: 4 })
    ));
    assert!(matches!(read_input(&mut mem, 98, 3, 4), Err(HandlerError::ReadFault)));
    mem.try_write_mem(97, &[1, 2, 3]).unwrap();
    assert_eq!(mem[96..], [96, 1, 2, 3]);
    assert!(mem.try_write_mem(98, &[1, 2, 3]).is_err());
}

#[test]
fn messages_are_posted_over_a_lazy_session() {
    let bus = Bus::new(friendly());
    let mut cell: Cell = None;
    let mut state = State::new();
    let mut mem: Vec<u8> = vec![0; 64];
    mem[0] = 99;
    assert!(matches!(
        bus_handlers::vmbus_msg(
            &mut cell,
            || boot(&bus),
            &mut state,
            &mut mem,
            0,
            5000,
            0
        ),
        Err(HandlerError::TooLong { .. })
    ));
    // Nothing was brought up for a message that is refused.
    assert!(cell.is_none());
    assert!(bus.0.borrow().posted.is_empty());
    bus_handlers::vmbus_msg(
        &mut cell,
        || boot(&bus),
        &mut state,
        &mut mem,
        0,
        16,
        0,
    )
    .unwrap();
    // The id was resolved before there was a connection.
    assert_eq!(bus.0.borrow().posted.last().unwrap().0, 4);
    assert_eq!(bus.0.borrow().posted.last().unwrap().1.len(), 16);
    let posted = bus.0.borrow().posted.len();
    bus_handlers::vmbus_msg(
        &mut cell,
        || Err(TmkError::AllocationFailed),
        &mut state,
        &mut mem,
        0,
        16,
        0,
    )
    .unwrap();
    assert_eq!(bus.0.borrow().posted.len(), posted + 1);
    assert_eq!(bus.0.borrow().posted.last().unwrap().0, 0x77);
}

#[test]
fn a_session_that_does_not_come_up() {
    let mut host = friendly();
    host.accepts = vec![];
    let bus = Bus::new(host);
    let mut cell: Cell = None;
    let mut state = State::new();
    assert!(matches!(
        bus_handlers::with_session(
            &mut cell,
            || Err(TmkError::AllocationFailed),
            &mut state,
        ),
        Err(HandlerError::Context(TmkError::AllocationFailed))
    ));
    assert!(matches!(
        bus_handlers::with_session(&mut cell, || boot(&bus), &mut state),
        Err(HandlerError::Init(Error::VersionMismatch))
    ));
    assert!(cell.is_none());
}

#[test]
fn replies_are_copied_out() {
    let bus = Bus::new(friendly());
    let mut cell: Cell = None;
    let mut state = State::new();
    let mut mem: Vec<u8> = vec![0; 64];
    let unload = encode_to_vec(&vmbus_guest::protocol::Unload);
    mem[..8].copy_from_slice(&unload);
    bus_handlers::vmbus_msg_comp(
        &mut cell,
        || boot(&bus),
        &mut state,
        &mut mem,
        0,
        8,
        32,
        6,
        7,
    )
    .unwrap();
    let reply = encode_to_vec(&UnloadComplete);
    assert_eq!(mem[32..38], reply[..6]);
    assert_eq!(mem[38..40], [0, 0]);
    assert_eq!(bus.0.borrow().posted.last().unwrap().0, 7);
    // No room for the reply.
    assert!(matches!(
        bus_handlers::vmbus_msg_comp(
            &mut cell,
            || boot(&bus),
            &mut state,
            &mut mem,
            0,
            8,
            62,
            6,
            7
        ),
        Err(HandlerError::WriteFault)
    ));
}

#[test]
fn packets_go_out_with_the_forced_type() {
    let bus = Bus::new(friendly());
    let mut cell: Cell = None;
    let mut state = State::new();
    let mut mem: Vec<u8> = vec![0; 64];
    mem[8..16].copy_from_slice(&[5; 8]);
    mem[16..32].copy_from_slice(&[0xFF, 0xFF, 2, 0, 3, 0, 0, 0, 1, 0, 0, 0, 0, 0, 0, 0]);
    for desc in [0usize, 16] {
        bus_handlers::vmbus_packet(
            &mut cell,
            || boot(&bus),
            || Some(region(&bus, 0)),
            &mut state,
            &mut mem,
            8,
            8,
            desc,
            0x1_0044,
        )
        .unwrap();
    }
    let host = bus.0.borrow();
    let seen = &host.device.as_ref().unwrap().seen;
    assert_eq!(seen[0], (0x44, vec![5; 8]));
    assert_eq!(seen[1], (0x44, vec![5; 8]));
    // The NIC was preferred to the first offer.
    assert_eq!(cell.unwrap().chan.unwrap().channel().channel_id(), ChannelId(9));
}

#[test]
fn channels_are_reopened_and_reset() {
    let bus = Bus::new(friendly());
    let mut cell: Cell = None;
    let mut state = State::new();
    let (freed, r) = bus_handlers::vmbus_reopen_channel(
        &mut cell,
        || boot(&bus),
        || Some(region(&bus, 0)),
        &mut state,
    );
    r.unwrap();
    assert_eq!(freed, None);
    let (freed, r) = bus_handlers::vmbus_reopen_channel(
        &mut cell,
        || boot(&bus),
        || Some(region(&bus, 0)),
        &mut state,
    );
    r.unwrap();
    assert_eq!(freed, Some(0x10_0000));

    bus.0.borrow_mut().offers.truncate(1);
    let freed = bus_handlers::reset_session(&mut cell, &mut state);
    assert_eq!(freed, Some(0x10_0000));
    let session = cell.as_ref().unwrap();
    assert!(session.chan.is_none());
    assert_eq!(session.offers.len(), 1);
    assert!(bus.0.borrow().types().contains(&MessageType::UNLOAD));

    // A host that no longer answers costs the session.
    bus.0.borrow_mut().accepts.clear();
    assert_eq!(bus_handlers::reset_session(&mut cell, &mut state), None);
    assert!(cell.is_none());
    assert_eq!(bus_handlers::reset_session(&mut cell, &mut state), None);
}

#[test]
fn no_offers_no_channel() {
    let mut host = friendly();
    host.offers.clear();
    let bus = Bus::new(host);
    let mut cell: Cell = None;
    let mut state = State::new();
    let (_, r) = bus_handlers::vmbus_reopen_channel(
        &mut cell,
        || boot(&bus),
        || Some(region(&bus, 0)),
        &mut state,
    );
    assert!(matches!(r, Err(HandlerError::NoOffers)));
    assert!(bus_handlers::preferred_offer(&[]).is_none());
    let other = [offer(1, Guid::default()), offer(2, Guid::default())];
    assert_eq!(bus_handlers::preferred_offer(&other).unwrap().channel_id, ChannelId(1));
}

#[test]
fn relids_walk_the_offers() {
    let bus = Bus::new(friendly());
    let mut cell: Cell = None;
    let mut state = State::new();
    let mut mem: Vec<u8> = vec![0; 64];
    let mut cursor = 1usize;
    assert!(matches!(
        bus_handlers::vmbus_fill_relids(
            &mut cell,
            || boot(&bus),
            &mut state,
            &mut mem,
            &mut cursor,
            0
        ),
        Err(HandlerError::NullPointer)
    ));
    bus_handlers::vmbus_fill_relids(
        &mut cell,
        || boot(&bus),
        &mut state,
        &mut mem,
        &mut cursor,
        8,
    )
    .unwrap();
    assert_eq!(cursor, 11);
    let ids: Vec<u32> =
        mem[8..48].chunks(4).map(|c| u32::from_le_bytes(c.try_into().unwrap())).collect();
    assert_eq!(ids, vec![9, 5, 9, 5, 9, 5, 9, 5, 9, 5]);
    let mut last = usize::MAX;
    assert_eq!(bus_handlers::next_relids(&[1, 2], &mut last).len(), 40);
    assert_eq!(last, 9);
}

fn nic_memory(bus: &Bus) -> NicMemory<Shared> {
    NicMemory {
        rings: Some(region(bus, netvsp::Version::V5.raw())),
        recv_gpa: Some(0x20_0000),
        send_gpa: Some(0x40_0000),
    }
}

#[test]
fn nic_messages_are_posted() {
    let bus = Bus::new(friendly());
    let mut cell = None;
    let mut state = State::new();
    let mut mem: Vec<u8> = vec![0; 64];
    mem[0] = 0xCD;
    mem[1] = 0xAB;
    nic_handlers::open_channel(
        &mut cell,
        || boot(&bus),
        || nic_memory(&bus),
        &mut state,
    )
    .unwrap();
    for flags in [0u64, 3] {
        nic_handlers::send_nvsp(
            &mut cell,
            || boot(&bus),
            || nic_memory(&bus),
            &mut state,
            &mut mem,
            0,
            8,
            flags,
        )
        .unwrap();
        // A message that asks for no completion has it pending.
        if flags == 0 {
            cell.as_mut().unwrap().nic.link.recv.read(&mut [0u8; 64]).unwrap();
        }
    }
    let seen = bus.0.borrow().device.as_ref().unwrap().seen.len();
    assert!(matches!(
        nic_handlers::send_rndis(
            &mut cell,
            || boot(&bus),
            || nic_memory(&bus),
            &mut state,
            &mut mem,
            0,
            0,
            0
        ),
        Err(HandlerError::Empty)
    ));
    mem[8] = 1;
    nic_handlers::send_rndis(
        &mut cell,
        || boot(&bus),
        || nic_memory(&bus),
        &mut state,
        &mut mem,
        8,
        12,
        1,
    )
    .unwrap();
    assert_eq!(nic_handlers::rndis_channel_type(&[2, 0, 0, 0]), netvsp::RMC_CONTROL);
    assert_eq!(nic_handlers::rndis_channel_type(&[1, 0, 0]), netvsp::RMC_CONTROL);
    assert_eq!(bus.0.borrow().device.as_ref().unwrap().seen.len(), seen);
    for arg in [0, 2] {
        nic_handlers::renew_buffer(
            &mut cell,
            || boot(&bus),
            || nic_memory(&bus),
            &mut state,
            arg,
        )
        .unwrap();
    }
    bus.0.borrow_mut().rndis_refused = Some(RndisCall::RenewRecv);
    assert!(matches!(
        nic_handlers::renew_buffer(
            &mut cell,
            || boot(&bus),
            || nic_memory(&bus),
            &mut state,
            0
        ),
        Err(HandlerError::Bus(Error::Timeout))
    ));
    assert_eq!(
        bus.0.borrow().rndis,
        vec![
            RndisCall::Init,
            RndisCall::SetPacketFilter(0xD),
            RndisCall::Send(netvsp::RMC_DATA, mem[8..20].to_vec(), true),
            RndisCall::RenewRecv,
            RndisCall::RenewSend,
            RndisCall::RenewRecv,
        ]
    );
}

#[test]
fn nic_sessions_are_reset() {
    let bus = Bus::new(friendly());
    let mut cell = None;
    let mut state = State::new();
    nic_handlers::open_channel(
        &mut cell,
        || boot(&bus),
        || nic_memory(&bus),
        &mut state,
    )
    .unwrap();
    let mut reclaimed = None;
    nic_handlers::reset_session(
        &mut cell,
        |b: nic_handlers::NicBacking| {
            reclaimed = Some((b.ring_gpa, b.recv_buf.unwrap().base_gpa, b.send_buf.unwrap().len));
            nic_memory(&bus)
        },
        &mut state,
    );
    assert!(cell.is_some());
    assert_eq!(reclaimed, Some((Some(0x10_0000), 0x20_0000, 1048576)));
    // Without memory the NIC does not come back, and the bus is unloaded.
    nic_handlers::reset_session(
        &mut cell,
        |_b: nic_handlers::NicBacking| NicMemory { rings: None, recv_gpa: None, send_gpa: None },
        &mut state,
    );
    assert!(cell.is_none());
    assert!(connection::connection(&state).is_none());
    assert_eq!(*bus.0.borrow().types().last().unwrap(), MessageType::UNLOAD);
}

#[test]
fn the_nic_is_reset_before_the_bus() {
    let bus = Bus::new(friendly());
    let mut nic = None;
    let mut session: Cell = None;
    let mut state = State::new();
    nic_handlers::open_channel(&mut nic, || boot(&bus), || nic_memory(&bus), &mut state).unwrap();
    bus_handlers::with_session(&mut session, || boot(&bus), &mut state).unwrap();
    let before = bus.0.borrow().posted.len();
    let freed = reset_sessions(
        &mut nic,
        &mut session,
        |_b: nic_handlers::NicBacking| nic_memory(&bus),
        &mut state,
    );
    assert_eq!(freed, None);
    assert!(nic.is_some());
    assert!(session.is_some());
    let types = bus.0.borrow().types();
    let close = types[before..].iter().position(|t| *t == MessageType::CLOSE_CHANNEL).unwrap();
    let unload = types[before..].iter().position(|t| *t == MessageType::UNLOAD).unwrap();
    assert_eq!(close, 0);
    assert!(close < unload);
    assert_eq!(*types.last().unwrap(), MessageType::REQUEST_OFFERS);
}

#[test]
fn guest_sessions_are_reset_together() {
    let bus = Bus::new(friendly());
    let recycle = |_b: nic_handlers::NicBacking| nic_memory(&bus);
    let mut s: GuestSessions<Bus, Shared, IgnoreResults, _> = GuestSessions::new(recycle);
    // Nothing is up: nothing happens.
    s.reset();
    assert!(bus.0.borrow().posted.is_empty());
    assert!(s.nic.is_none() && s.bus.is_none() && s.freed.is_empty());
    nic_handlers::open_channel(&mut s.nic, || boot(&bus), || nic_memory(&bus), &mut s.state)
        .unwrap();
    let (_, r) = bus_handlers::vmbus_reopen_channel(
        &mut s.bus,
        || boot(&bus),
        || Some(region(&bus, netvsp::Version::V5.raw())),
        &mut s.state,
    );
    r.unwrap();
    s.relid_cursor = 7;
    s.reset();
    assert!(s.nic.is_some());
    assert!(s.bus.as_ref().unwrap().chan.is_none());
    assert_eq!(s.freed, vec![0x10_0000]);
    assert_eq!(s.relid_cursor, 7);
    assert_eq!(*bus.0.borrow().types().last().unwrap(), MessageType::REQUEST_OFFERS);
}

#[test]
fn nic_bring_up_reports_its_step() {
    let bus = Bus::new(friendly());
    let mut cell = None;
    let mut state = State::new();
    let r = nic_handlers::open_channel(
        &mut cell,
        || boot(&bus),
        || NicMemory { recv_gpa: None, ..nic_memory(&bus) },
        &mut state,
    );
    assert!(matches!(r, Err(HandlerError::Nic(NicStep::EstablishRecvBuffer, _))));
    assert!(cell.is_none());
    assert!(bus.0.borrow().rndis.is_empty());
    for call in [RndisCall::Init, RndisCall::SetPacketFilter(0xD)] {
        bus.0.borrow_mut().rndis_refused = Some(call.clone());
        let r = nic_handlers::open_channel(
            &mut cell,
            || boot(&bus),
            || nic_memory(&bus),
            &mut state,
        );
        let step = if call == RndisCall::Init {
            NicStep::RndisInit
        } else {
            NicStep::SetPacketFilter
        };
        match r {
            Err(HandlerError::Nic(s, Error::Timeout)) => assert_eq!(s, step),
            _ => panic!("the NIC came up"),
        }
        assert_eq!(bus.0.borrow().rndis.last(), Some(&call));
        assert!(cell.is_none());
    }
    bus.0.borrow_mut().offers.truncate(1);
    let r = nic_handlers::open_channel(
        &mut cell,
        || boot(&bus),
        || nic_memory(&bus),
        &mut state,
    );
    assert!(matches!(r, Err(HandlerError::NoNetvsp)));
}

// ---------------------------------------------------------------------------
// Executors
// ---------------------------------------------------------------------------
struct Grammar {
    functions: usize,
    runs: u64,
}

impl Deserializer for Grammar {
    type Mapping = bool;
    type Test = u64;
    type Sessions = Resets;
    fn new() -> Self {
        Grammar { functions: 0, runs: 0 }
    }
    fn set_function_registry(&mut self, registry: &FunctionRegistry) {
        self.functions = registry.functions.len();
    }
    fn set_mappings(&mut self, mapping: &bool) -> Result<(), ExecutorError> {
        if *mapping {
            Ok(())
        } else {
            Err(ExecutorError::DecoderMappingsDeserializeFailed)
        }
    }
    fn deserialize_and_execute(
        &mut self,
        test: &mut u64,
        sessions: &mut Resets,
    ) -> Result<u64, ExecutorError> {
        self.runs += 1;
        sessions.done.push("run");
        if *test == 0 {
            Err(ExecutorError::SyzlangDeserializerFailed("empty".to_string()))
        } else {
            Ok(*test + self.runs)
        }
    }
}

/// What was done to the sessions, in order.
#[derive(Default)]
struct Resets {
    done: Vec<&'static str>,
}

impl Sessions for Resets {
    fn reset(&mut self) {
        self.done.push("reset");
    }
}

fn configuration(mapping: bool) -> Packet<bool, u64> {
    Packet::Configuration(ConfigurationPacket {
        deserializer: GrammarDeserializer::SyzDecoder,
        mapping,
    })
}

#[test]
fn executor_runs_testcases() {
    let mut ex: executor::Executor<Grammar> = executor::Executor::new();
    let mut sessions = Resets::default();
    ex.register_fuzz_functions(true);
    assert_eq!(ex.fn_registry.functions.len(), 16);
    assert_eq!(ex.fn_registry.functions[0].0, "port_write8");
    assert_eq!(ex.fn_registry.functions[15].0, "vmbus_fill_relids");
    // No deserializer yet: the sessions are reset all the same.
    assert!(matches!(
        ex.process_next_packet(&mut sessions, Packet::FuzzTest(1)),
        Reaction::ReportAndStop { error: ExecutorError::NoDeserializerEnabled }
    ));
    assert_eq!(sessions.done, ["reset"]);
    assert!(matches!(
        ex.process_next_packet(&mut sessions, configuration(true)),
        Reaction::Ack { code: 0 }
    ));
    assert_eq!(ex.deserializer.as_ref().unwrap().functions, 16);
    assert!(matches!(
        ex.process_next_packet(&mut sessions, Packet::FuzzTest(10)),
        Reaction::Ack { code: 11 }
    ));
    // A refused configuration leaves the deserializer as it was.
    assert!(matches!(
        ex.process_next_packet(&mut sessions, configuration(false)),
        Reaction::ReportAndStop { error: ExecutorError::DecoderMappingsDeserializeFailed }
    ));
    assert!(matches!(
        ex.process_next_packet(&mut sessions, Packet::FuzzTest(10)),
        Reaction::Ack { code: 12 }
    ));
    assert!(matches!(
        ex.process_next_packet(&mut sessions, Packet::FuzzTest(0)),
        Reaction::ReportAndStop { error: ExecutorError::SyzlangDeserializerFailed(_) }
    ));
    assert!(matches!(
        ex.process_next_packet(&mut sessions, Packet::Ack { code: 0 }),
        Reaction::ReportAndStop { error: ExecutorError::UnexpectedPacketReceived }
    ));
    // Each testcase runs over sessions that were reset before.
    assert_eq!(
        sessions.done,
        ["reset", "reset", "run", "reset", "run", "reset", "run"]
    );
}

#[test]
fn invariant_executor_goes_on_after_a_failure() {
    let mut ex: invariant_executor::Executor<Grammar> = invariant_executor::Executor::new();
    let mut sessions = Resets::default();
    ex.register_fuzz_functions();
    assert_eq!(ex.fn_registry.functions.len(), 11);
    assert!(matches!(
        ex.process_next_packet(&mut sessions, Packet::FuzzTest(1)),
        Reaction::Stop { error: ExecutorError::NoDeserializerEnabled }
    ));
    assert!(matches!(
        ex.process_next_packet(&mut sessions, configuration(true)),
        Reaction::Ack { code: 0 }
    ));
    assert!(matches!(
        ex.process_next_packet(&mut sessions, Packet::FuzzTest(0)),
        Reaction::Report { error: ExecutorError::SyzlangDeserializerFailed(_) }
    ));
    assert!(matches!(ex.process_next_packet(&mut sessions, Packet::FuzzTest(5)), Reaction::Ack { code: 7 }));
    // A refused mapping replaces the deserializer all the same.
    assert!(matches!(
        ex.process_next_packet(&mut sessions, configuration(false)),
        Reaction::Stop { error: ExecutorError::DecoderMappingsDeserializeFailed }
    ));
    assert!(matches!(ex.process_next_packet(&mut sessions, Packet::FuzzTest(5)), Reaction::Ack { code: 6 }));
    let off = ConfigurationPacket { deserializer: GrammarDeserializer::Disabled, mapping: true };
    assert!(matches!(
        ex.process_next_packet(&mut sessions, Packet::Configuration(off)),
        Reaction::Stop { error: ExecutorError::NoDeserializerEnabled }
    ));
    assert_eq!(ex.deserializer_type, GrammarDeserializer::Disabled);
    // Nothing is reset between testcases.
    assert_eq!(sessions.done, ["run", "run", "run"]);
    assert!(matches!(
        ex.process_next_packet(&mut sessions, Packet::Error { error: ExecutorError::DeserializerUnset }),
        Reaction::Stop { error: ExecutorError::UnexpectedPacketReceived }
    ));
}
