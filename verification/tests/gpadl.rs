//! Splitting of page lists into messages.
use vmbus_guest::gpadl::body_count_for;
use vmbus_guest::gpadl::body_count_for_bytes;
use vmbus_guest::gpadl::build_single_range_payload;
use vmbus_guest::gpadl::connection_id_from_state;
use vmbus_guest::gpadl::encode_gpadl_messages;
use vmbus_guest::gpadl::BODY_RANGE_CAPACITY_BYTES;
use vmbus_guest::gpadl::HEADER_RANGE_CAPACITY_BYTES;
use vmbus_guest::message;
use vmbus_guest::protocol::ChannelId;
use vmbus_guest::protocol::GpadlBody;
use vmbus_guest::protocol::GpadlHeader;
use vmbus_guest::protocol::GpadlId;
use vmbus_guest::protocol::MessageType;
use vmbus_guest::protocol::MAX_MESSAGE_SIZE;
use vmbus_guest::Error;

#[test]
fn header_capacity_matches_spec() {
    // 240 - 8 (MessageHeader) - 12 (GpadlHeader) = 220, rounded
    // down to a u64 multiple = 216 bytes = 27 u64 slots in the
    // initial message.
    assert_eq!(HEADER_RANGE_CAPACITY_BYTES, 216);
    // 240 - 8 (MessageHeader) - 8 (GpadlBody) = 224 bytes = 28 u64
    // slots in each continuation.
    assert_eq!(BODY_RANGE_CAPACITY_BYTES, 224);
}

#[test]
fn body_count_for_bytes_edges() {
    assert_eq!(body_count_for_bytes(0), 0);
    assert_eq!(body_count_for_bytes(HEADER_RANGE_CAPACITY_BYTES), 0);
    assert_eq!(body_count_for_bytes(HEADER_RANGE_CAPACITY_BYTES + 1), 1);
    assert_eq!(
        body_count_for_bytes(HEADER_RANGE_CAPACITY_BYTES + BODY_RANGE_CAPACITY_BYTES),
        1
    );
    assert_eq!(
        body_count_for_bytes(HEADER_RANGE_CAPACITY_BYTES + BODY_RANGE_CAPACITY_BYTES + 1),
        2
    );
}

#[test]
fn single_page_fits_in_header() {
    let pfns = [0x1000u64];
    let payload = build_single_range_payload(4096, &pfns);
    assert_eq!(payload.len(), 8 + 8); // GpaRange + 1 PFN
    let msgs = encode_gpadl_messages(ChannelId(1), GpadlId(2), 1, &payload);
    assert_eq!(msgs.len(), 1);
    let m0 = &msgs.messages[0];
    assert_eq!(
        message::peek_header(m0).unwrap(),
        MessageType(MessageType::GPADL_HEADER)
    );
}

/// Given P pages, `1 + ceil((range_bytes - HEADER_CAP) / BODY_CAP)`
/// messages come out.
#[test]
fn message_count_by_pages() {
    for pages in [1usize, 10, 26, 27, 28, 60, 100, 1000] {
        let pfns: Vec<u64> = (0..pages as u64).map(|i| 0x1000 + i).collect();
        let payload = build_single_range_payload((pages * 4096) as u32, &pfns);
        let msgs = encode_gpadl_messages(ChannelId(1), GpadlId(2), 1, &payload);
        let expected_body = body_count_for_bytes(payload.len());
        assert_eq!(
            msgs.len(),
            1 + expected_body,
            "unexpected message count for {pages} pages"
        );
    }
}

#[test]
fn pfn_sequence_is_preserved_across_split() {
    // Enough pages so range payload spills into two body messages.
    let pages = 26 + 28 + 5; // spans header + 1 full body + 1 partial body
    let pfns: Vec<u64> = (0..pages as u64).map(|i| 0xABCD_0000 + i).collect();
    let payload = build_single_range_payload((pages * 4096) as u32, &pfns);
    let msgs = encode_gpadl_messages(ChannelId(1), GpadlId(2), 1, &payload);
    assert_eq!(msgs.len(), 3);

    // First message: parse GpadlHeader, then the first 27 u64
    // slots (GpaRange + 26 PFNs).
    let m0 = &msgs.messages[0];
    let hdr: GpadlHeader = message::parse(m0).unwrap();
    assert_eq!(hdr.count, 1);
    assert_eq!(hdr.gpadl_id, GpadlId(2));
    assert_eq!(hdr.len as usize, payload.len());
    // The last PFN in the header matches pfns[25].
    let payload_off = 8 + 12 + 8 + 25 * 8; // hdr(8+12) + GpaRange(8) + 25*8
    let bytes = &m0[payload_off..payload_off + 8];
    let mut pfn_bytes = [0u8; 8];
    pfn_bytes.copy_from_slice(bytes);
    assert_eq!(u64::from_le_bytes(pfn_bytes), pfns[25]);

    // Body messages carry pfns[26..] continuously.
    let m1 = &msgs.messages[1];
    let body: GpadlBody = message::parse(m1).unwrap();
    assert_eq!(body.gpadl_id, GpadlId(2));
    // First PFN in body 1 is pfns[26].
    let body_payload_off = 8 + 8; // MessageHeader + GpadlBody
    let mut pfn_bytes = [0u8; 8];
    pfn_bytes.copy_from_slice(&m1[body_payload_off..body_payload_off + 8]);
    assert_eq!(u64::from_le_bytes(pfn_bytes), pfns[26]);

    // First PFN in body 2 is pfns[26 + 28] = pfns[54].
    let m2 = &msgs.messages[2];
    let mut pfn_bytes = [0u8; 8];
    pfn_bytes.copy_from_slice(&m2[body_payload_off..body_payload_off + 8]);
    assert_eq!(u64::from_le_bytes(pfn_bytes), pfns[54]);
}

#[test]
fn every_message_fits_in_envelope() {
    let pages = 200;
    let pfns: Vec<u64> = (0..pages as u64).map(|i| 0x1000 + i).collect();
    let payload = build_single_range_payload((pages * 4096) as u32, &pfns);
    let msgs = encode_gpadl_messages(ChannelId(1), GpadlId(2), 1, &payload);
    for m in &msgs.messages {
        assert!(
            m.len() <= MAX_MESSAGE_SIZE,
            "GPADL message oversized: {}",
            m.len()
        );
    }
}

#[test]
fn messages_carry_the_payload() {
    let pfns: Vec<u64> = (0..100u64).map(|i| i * i).collect();
    let payload = build_single_range_payload(100 * 4096, &pfns);
    let msgs = encode_gpadl_messages(ChannelId(7), GpadlId(8), 1, &payload);
    let mut carried: Vec<u8> = Vec::new();
    for (i, m) in msgs.messages.iter().enumerate() {
        carried.extend_from_slice(if i == 0 { &m[20..] } else { &m[16..] });
    }
    assert_eq!(carried, payload);
    assert!(!msgs.is_empty());
}

#[test]
fn body_counts() {
    assert_eq!(body_count_for(26), 0);
    assert_eq!(body_count_for(27), 1);
    assert_eq!(body_count_for(26 + 28), 1);
    assert_eq!(body_count_for(26 + 29), 2);
}

#[test]
fn no_connection_no_id() {
    assert!(matches!(connection_id_from_state(None), Err(Error::VersionMismatch)));
}
