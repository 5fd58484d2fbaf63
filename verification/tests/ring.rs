//! Ring buffers.
use std::cell::RefCell;
use std::rc::Rc;
use vmbus_guest::protocol::PacketFlags;
use vmbus_guest::protocol::PacketType;
use vmbus_guest::ring::align8;
use vmbus_guest::ring::available_data;
use vmbus_guest::ring::available_free;
use vmbus_guest::ring::signal_on_crossing;
use vmbus_guest::ring::FlatRingMem;
use vmbus_guest::ring::OwnedRingMem;
use vmbus_guest::ring::RecvRing;
use vmbus_guest::ring::RingMem;
use vmbus_guest::ring::SendRing;
use vmbus_guest::ring::SignalDecision;
use vmbus_guest::Error;

/// One memory that both ends of a ring work on.
#[derive(Clone)]
struct Shared(Rc<RefCell<FlatRingMem>>);

impl RingMem for Shared {
    fn control(&self) -> Vec<u32> {
        self.0.borrow().control()
    }
    fn data_len(&self) -> usize {
        self.0.borrow().data_len()
    }
    fn load(&self, word: usize) -> u32 {
        self.0.borrow().load(word)
    }
    fn store(&mut self, word: usize, value: u32) {
        self.0.borrow_mut().store(word, value)
    }
    fn read_at(&self, off: usize, data: &mut [u8]) {
        self.0.borrow().read_at(off, data)
    }
    fn write_at(&mut self, off: usize, data: &[u8]) {
        self.0.borrow_mut().write_at(off, data)
    }
}

/// Build a paired sender + receiver over the same underlying memory.
fn pair(data_len: usize) -> (SendRing<Shared>, RecvRing<Shared>) {
    let mem = Shared(Rc::new(RefCell::new(FlatRingMem::new(data_len))));
    (SendRing::new(mem.clone()), RecvRing::new(mem))
}

#[test]
fn write_then_read_single_packet() {
    let (mut send, mut recv) = pair(4096);
    let payload = b"hello world";
    let signal = send.write_inband(payload, PacketFlags::new(), 42).unwrap();
    assert!(signal, "empty to non-empty should signal");

    let mut buf = [0u8; 256];
    let pkt = recv.read(&mut buf).unwrap();
    assert_eq!(
        pkt.descriptor.packet_type,
        PacketType(PacketType::VM_PKT_DATA_INBAND)
    );
    assert_eq!(pkt.descriptor.transaction_id, 42);
    assert_eq!(pkt.ext_header_len, 0);
    assert_eq!(&pkt.payload[..payload.len()], payload);
    assert_eq!(recv.available(), 0);
}

#[test]
fn write_n_read_back_fifo() {
    let (mut send, mut recv) = pair(4096);
    for i in 0..8u64 {
        let payload = [i as u8; 40];
        let _ = send.write_inband(&payload, PacketFlags::new(), i).unwrap();
    }
    let mut buf = [0u8; 128];
    for i in 0..8u64 {
        let pkt = recv.read(&mut buf).unwrap();
        assert_eq!(pkt.descriptor.transaction_id, i);
        assert_eq!(pkt.payload[0], i as u8);
    }
    assert!(matches!(recv.read(&mut buf), Err(Error::RingEmpty)));
}

#[test]
fn signal_only_on_empty_to_nonempty() {
    let (mut send, mut recv) = pair(4096);
    // First write on empty: signal.
    assert!(send.write_inband(b"a", PacketFlags::new(), 0).unwrap());
    // Second write on non-empty: no signal.
    assert!(!send.write_inband(b"b", PacketFlags::new(), 0).unwrap());
    // Drain both.
    let mut buf = [0u8; 32];
    recv.read(&mut buf).unwrap();
    recv.read(&mut buf).unwrap();
    // Now empty again: next write signals.
    assert!(send.write_inband(b"c", PacketFlags::new(), 0).unwrap());
}

#[test]
fn signal_suppressed_when_interrupt_masked() {
    let (mut send, mut recv) = pair(4096);
    recv.set_interrupt_mask(true);
    assert!(!send.write_inband(b"x", PacketFlags::new(), 0).unwrap());
    recv.set_interrupt_mask(false);
    // Drain and try again on empty.
    let mut buf = [0u8; 32];
    recv.read(&mut buf).unwrap();
    assert!(send.write_inband(b"y", PacketFlags::new(), 0).unwrap());
}

#[test]
fn wraparound() {
    // 64-byte data area: smallest legal power-of-two that fits
    // more than one 32-byte inband packet (16-byte descriptor +
    // 8-byte payload padded + 8-byte footer = 32 bytes).
    let (mut send, mut recv) = pair(64);
    let mut buf = [0u8; 64];
    // Fill and drain enough times to cross the boundary.
    for i in 0..20u64 {
        let _ = send
            .write_inband(&[i as u8; 4], PacketFlags::new(), i)
            .unwrap();
        let pkt = recv.read(&mut buf).unwrap();
        assert_eq!(pkt.descriptor.transaction_id, i);
        assert_eq!(pkt.payload[0], i as u8);
    }
}

#[test]
fn ring_full_returns_error() {
    // 64-byte ring: room for exactly one 32-byte packet minus the
    // reserved slot (56 bytes usable).
    let (mut send, _recv) = pair(64);
    // First 32-byte packet fits.
    send.write_inband(&[0u8; 4], PacketFlags::new(), 0).unwrap();
    // Second 32-byte packet does not (56 - 32 = 24 < 32).
    assert!(matches!(
        send.write_inband(&[0u8; 4], PacketFlags::new(), 1),
        Err(Error::RingFull)
    ));
}

#[test]
fn completion_packet_type() {
    let (mut send, mut recv) = pair(4096);
    send.write_completion(&[1, 2, 3, 4], 99).unwrap();
    let mut buf = [0u8; 64];
    let pkt = recv.read(&mut buf).unwrap();
    assert_eq!(
        pkt.descriptor.packet_type,
        PacketType(PacketType::VM_PKT_COMP)
    );
    assert_eq!(pkt.descriptor.transaction_id, 99);
    assert_eq!(&pkt.payload[..4], &[1, 2, 3, 4]);
}

#[test]
fn read_empty_returns_ring_empty() {
    let (_send, mut recv) = pair(4096);
    let mut buf = [0u8; 32];
    assert!(matches!(recv.read(&mut buf), Err(Error::RingEmpty)));
}

#[test]
fn pending_send_size_hint_persists() {
    let (_send, mut recv) = pair(4096);
    recv.set_pending_send_size(2048);
    // Read it back through the control words.
    let v = recv.mem().control()[3];
    assert_eq!(v, 2048);
}

#[test]
fn packet_with_ext_header() {
    let (mut send, mut recv) = pair(4096);
    let ext = [0xAAu8; 8];
    let payload = [0xBBu8; 16];
    send.write_packet(
        PacketType(PacketType::VM_PKT_DATA_USING_GPA_DIRECT),
        &ext,
        &payload,
        PacketFlags::new(),
        7,
    )
    .unwrap();
    let mut buf = [0u8; 128];
    let pkt = recv.read(&mut buf).unwrap();
    assert_eq!(
        pkt.descriptor.packet_type,
        PacketType(PacketType::VM_PKT_DATA_USING_GPA_DIRECT)
    );
    assert_eq!(pkt.ext_header_len, 8);
    assert_eq!(&pkt.payload[..payload.len()], &payload);
    // The ext header sits before the payload in the read buffer.
    assert_eq!(&buf[..8], &ext);
}

#[test]
fn full_ring_leaves_a_hint() {
    let (mut send, mut recv) = pair(64);
    send.write_inband(&[0u8; 4], PacketFlags::new(), 0).unwrap();
    assert!(send.write_inband(&[0u8; 4], PacketFlags::new(), 1).is_err());
    assert_eq!(recv.pending_send_size(), 32);
    assert!(recv.supports_pending_send_size());
    // Draining crosses from too little room to enough.
    let mut buf = [0u8; 32];
    recv.read(&mut buf).unwrap();
    assert_eq!(recv.drain_signal_decision(32), SignalDecision::Signal);
    // The queue is as it was: only the first packet was in it.
    assert!(matches!(recv.read(&mut buf), Err(Error::RingEmpty)));
}

#[test]
fn small_buffer_keeps_the_packet() {
    let (mut send, mut recv) = pair(4096);
    send.write_inband(&[9u8; 40], PacketFlags::new(), 3).unwrap();
    let mut small = [0u8; 47];
    assert!(matches!(recv.read(&mut small), Err(Error::Parse { .. })));
    let mut large = [0u8; 48];
    let pkt = recv.read(&mut large).unwrap();
    assert_eq!(pkt.payload, &[9u8; 40]);
}

#[test]
fn oversized_packets_are_refused() {
    let (mut send, _recv) = pair(4096);
    let huge = vec![0u8; 0xffff * 8 + 1];
    assert!(matches!(
        send.write_inband(&huge, PacketFlags::new(), 0),
        Err(Error::Parse { reason: "packet too large", .. })
    ));
}

#[test]
fn impossible_indices_are_refused() {
    let mem = Shared(Rc::new(RefCell::new(FlatRingMem::new(64))));
    let mut send = SendRing::new(mem.clone());
    let mut recv = RecvRing::new(mem.clone());
    let mut host = mem.clone();
    // The reader is further along than the ring is long.
    host.store(1, 4096);
    let mut buf = [0u8; 32];
    assert!(recv.read(&mut buf).is_err());
    assert_eq!(recv.available(), 0);
    // So is the writer.
    host.store(1, 0);
    host.store(0, 4096);
    assert!(matches!(
        send.write_inband(&[1], PacketFlags::new(), 0),
        Err(Error::Parse { reason: "ring index out of range", .. })
    ));
}

#[test]
fn gpa_direct_carries_the_page_list() {
    let (mut send, mut recv) = pair(4096);
    send.write_gpa_direct(&[0x10, 0x11], 8, 5000, &[1, 2, 3], PacketFlags::new(), 77)
        .unwrap();
    let mut buf = [0u8; 128];
    let (ext, payload) = {
        let pkt = recv.read(&mut buf).unwrap();
        assert_eq!(pkt.descriptor.transaction_id, 77);
        (pkt.ext_header_len, pkt.payload.to_vec())
    };
    assert_eq!(ext, 32);
    assert_eq!(payload, vec![1, 2, 3, 0, 0, 0, 0, 0]);
    assert_eq!(buf[4..8], 1u32.to_le_bytes());
    assert_eq!(buf[8..12], 5000u32.to_le_bytes());
    assert_eq!(buf[12..16], 8u32.to_le_bytes());
    assert_eq!(buf[16..24], 0x10u64.to_le_bytes());
    assert_eq!(buf[24..32], 0x11u64.to_le_bytes());
}

#[test]
fn gpa_direct_refusals() {
    let (mut send, _recv) = pair(4096);
    let flags = PacketFlags::new();
    assert!(send.write_gpa_direct(&[], 0, 0, &[], flags, 0).is_err());
    assert!(send.write_gpa_direct(&[1], 4096, 0, &[], flags, 0).is_err());
    assert!(send.write_gpa_direct(&[1], 96, 4001, &[], flags, 0).is_err());
    assert!(send.write_gpa_direct(&[1], 96, 4000, &[], flags, 0).is_ok());
    assert!(send.write_gpa_direct(&[0; 33], 0, 1, &[], flags, 0).is_err());
}

#[test]
fn a_raw_descriptor_stands_as_it_is() {
    let mem = Shared(Rc::new(RefCell::new(FlatRingMem::new(64))));
    let mut send = SendRing::new(mem.clone());
    let descriptor = [0x5Au8; 16];
    assert!(send.write_raw_packet(&descriptor, &[1, 2, 3]).unwrap());
    let mut head = [0u8; 32];
    mem.read_at(0, &mut head);
    assert_eq!(head[..16], descriptor);
    assert_eq!(head[16..24], [1, 2, 3, 0, 0, 0, 0, 0]);
    // The ring's own accounting goes by the bytes: 32 of them.
    assert_eq!(mem.load(0), 32);
}

#[test]
fn ring_arithmetic() {
    assert_eq!(align8(0), 0);
    assert_eq!(align8(1), 8);
    assert_eq!(align8(8), 8);
    assert_eq!(available_free(0, 0, 64), Some(56));
    assert_eq!(available_free(32, 0, 64), Some(24));
    assert_eq!(available_data(32, 0, 64), Some(32));
    assert_eq!(available_data(8, 56, 64), Some(16));
}

#[test]
fn signal_once_per_crossing() {
    // 32 bytes are waited for: 24 were free, 32 are free now.
    assert_eq!(signal_on_crossing(32, 32, 8), SignalDecision::Signal);
    // There was room before already.
    assert_eq!(signal_on_crossing(32, 48, 8), SignalDecision::NoSignal);
    // There still is not.
    assert_eq!(signal_on_crossing(32, 24, 8), SignalDecision::NoSignal);
}

#[test]
fn owned_memory_counts_pages() {
    let mem = OwnedRingMem::new(2);
    assert_eq!(mem.data_len(), 8192);
    let mut send = SendRing::new(mem);
    assert!(send.write_inband(&[0u8; 100], PacketFlags::new(), 0).unwrap());
    send.set_pending_send_size(7);
    assert_eq!(send.mem().load(3), 7);
}
