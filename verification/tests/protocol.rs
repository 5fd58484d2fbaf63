//! Layouts and round trips of the wire types.
use vmbus_guest::message;
use vmbus_guest::protocol::AllOffersDelivered;
use vmbus_guest::protocol::CloseChannel;
use vmbus_guest::protocol::FeatureFlags;
use vmbus_guest::protocol::GpadlBody;
use vmbus_guest::protocol::GpadlCreated;
use vmbus_guest::protocol::GpadlHeader;
use vmbus_guest::protocol::GpadlTeardown;
use vmbus_guest::protocol::GpadlTorndown;
use vmbus_guest::protocol::HvsockParametersVersion;
use vmbus_guest::protocol::HvsockUserDefinedParameters;
use vmbus_guest::protocol::InitiateContact;
use vmbus_guest::protocol::InitiateContact2;
use vmbus_guest::protocol::MessageHeader;
use vmbus_guest::protocol::MessageType;
use vmbus_guest::protocol::ModifyChannel;
use vmbus_guest::protocol::ModifyChannelResponse;
use vmbus_guest::protocol::ModifyConnection;
use vmbus_guest::protocol::ModifyConnectionResponse;
use vmbus_guest::protocol::OfferChannel;
use vmbus_guest::protocol::OfferFlags;
use vmbus_guest::protocol::OpenChannel;
use vmbus_guest::protocol::OpenChannel2;
use vmbus_guest::protocol::OpenResult;
use vmbus_guest::protocol::PacketDescriptor;
use vmbus_guest::protocol::PacketFlags;
use vmbus_guest::protocol::PacketType;
use vmbus_guest::protocol::RelIdReleased;
use vmbus_guest::protocol::RequestOffers;
use vmbus_guest::protocol::RescindChannelOffer;
use vmbus_guest::protocol::TlConnectResult;
use vmbus_guest::protocol::Unload;
use vmbus_guest::protocol::UnloadComplete;
use vmbus_guest::protocol::UserDefinedData;
use vmbus_guest::protocol::Version;
use vmbus_guest::protocol::VersionResponse;
use vmbus_guest::protocol::VersionResponse2;
use vmbus_guest::protocol::VersionResponse3;
use vmbus_guest::protocol::VmbusMessage;
use vmbus_guest::protocol::HEADER_SIZE;
use vmbus_guest::protocol::MAX_MESSAGE_SIZE;
use vmbus_guest::wire::Wire;
use vmbus_guest::Error;

fn roundtrip<T: Wire + PartialEq + core::fmt::Debug>(msg: &T) {
    let bytes = msg.as_bytes();
    assert_eq!(bytes.len(), T::wire_size());
    let (parsed, _) = T::read_from_prefix(&bytes).unwrap();
    assert_eq!(&parsed, msg);
}

#[test]
fn header_size() {
    assert_eq!(HEADER_SIZE, MessageHeader::wire_size());
    assert_eq!(HEADER_SIZE, 8);
}

#[test]
fn initiate_contact_layout() {
    assert_eq!(InitiateContact::wire_size(), 32);
    // With ClientId GUID appended.
    assert_eq!(InitiateContact2::wire_size(), InitiateContact::wire_size() + 16);
}

#[test]
fn version_response_layouts() {
    assert_eq!(VersionResponse::wire_size(), 8);
    assert_eq!(VersionResponse2::wire_size(), 12);
    assert_eq!(VersionResponse3::wire_size(), 32);
}

#[test]
fn offer_channel_layout() {
    // interface_id(16) + instance_id(16) + rsvd([u32;4] = 16) + flags(2)
    // + mmio_mb(2) + user_defined(120) + subchannel_index(2)
    // + mmio_mb_optional(2) + channel_id(4) + monitor_id(1)
    // + monitor_allocated(1) + is_dedicated(2) + connection_id(4) = 188.
    assert_eq!(OfferChannel::wire_size(), 188);
}

#[test]
fn user_defined_data_layout() {
    assert_eq!(UserDefinedData::wire_size(), 120);
    assert_eq!(HvsockUserDefinedParameters::wire_size(), 28);
}

#[test]
fn gpadl_header_body_capacity() {
    // Header/Body fields don't blow the message envelope.
    assert!(GpadlHeader::MESSAGE_SIZE <= MAX_MESSAGE_SIZE);
    assert!(GpadlBody::MESSAGE_SIZE <= MAX_MESSAGE_SIZE);
    // Enough PFNs fit after the header to describe a small ring.
    assert!(GpadlHeader::MAX_DATA_VALUES > 0);
    assert!(GpadlBody::MAX_DATA_VALUES > GpadlHeader::MAX_DATA_VALUES);
}

#[test]
fn message_type_open_enum_roundtrip() {
    // Unknown types must round-trip losslessly.
    let unknown = MessageType(0x1234);
    let bytes = unknown.as_bytes();
    let (back, _) = MessageType::read_from_prefix(&bytes).unwrap();
    assert_eq!(back, unknown);
}

#[test]
fn packet_type_open_enum_roundtrip() {
    let unknown = PacketType(0xBEEF);
    let bytes = unknown.as_bytes();
    let (back, _) = PacketType::read_from_prefix(&bytes).unwrap();
    assert_eq!(back, unknown);
}

#[test]
fn version_ladder_ordered() {
    let ladder = Version::NEGOTIATION_LADDER;
    assert_eq!(ladder[0], Version::Copper);
    assert_eq!(*ladder.last().unwrap(), Version::Win8);
    // Strictly descending.
    for pair in ladder.windows(2) {
        assert!(pair[0] > pair[1], "ladder must be strictly descending");
    }
}

#[test]
fn versions_are_ordered_by_their_numbers() {
    let all = [
        Version::V1,
        Version::Win7,
        Version::Win8,
        Version::Win8_1,
        Version::Win10,
        Version::Win10Rs3_0,
        Version::Win10Rs3_1,
        Version::Win10Rs4,
        Version::Win10Rs5,
        Version::Iron,
        Version::Copper,
    ];
    for a in all {
        for b in all {
            assert_eq!(a < b, a.raw() < b.raw());
            assert_eq!(a <= b, a.raw() <= b.raw());
            assert_eq!(a.cmp(&b), a.raw().cmp(&b.raw()));
            assert_eq!(a.partial_cmp(&b), Some(a.cmp(&b)));
        }
    }
    assert_eq!(Version::Copper.raw(), 0x6_0000);
    assert_eq!(Version::Win8.raw(), 0x2_0004);
}

#[test]
fn feature_flags_supported_bits() {
    let flags = FeatureFlags::supported();
    assert!(flags.guest_specified_signal_parameters());
    assert!(flags.channel_interrupt_redirection());
    assert!(flags.modify_connection());
    assert!(flags.client_id());
    assert!(!flags.confidential_channels());
    assert!(!flags.pause_resume());
}

#[test]
fn zerocopy_roundtrips() {
    roundtrip(&InitiateContact::new_zeroed());
    roundtrip(&InitiateContact2::new_zeroed());
    roundtrip(&VersionResponse::new_zeroed());
    roundtrip(&VersionResponse2::new_zeroed());
    roundtrip(&VersionResponse3::new_zeroed());
    roundtrip(&OfferChannel::new_zeroed());
    roundtrip(&RescindChannelOffer::new_zeroed());
    roundtrip(&GpadlHeader::new_zeroed());
    roundtrip(&GpadlBody::new_zeroed());
    roundtrip(&GpadlCreated::new_zeroed());
    roundtrip(&GpadlTeardown::new_zeroed());
    roundtrip(&GpadlTorndown::new_zeroed());
    roundtrip(&OpenChannel::new_zeroed());
    roundtrip(&OpenChannel2::new_zeroed());
    roundtrip(&OpenResult::new_zeroed());
    roundtrip(&CloseChannel::new_zeroed());
    roundtrip(&RelIdReleased::new_zeroed());
    roundtrip(&ModifyChannel::new_zeroed());
    roundtrip(&ModifyChannelResponse::new_zeroed());
    roundtrip(&ModifyConnection::new_zeroed());
    roundtrip(&ModifyConnectionResponse::new_zeroed());
    roundtrip(&TlConnectResult::new_zeroed());
    roundtrip(&RequestOffers);
    roundtrip(&AllOffersDelivered);
    roundtrip(&Unload);
    roundtrip(&UnloadComplete);
}

#[test]
fn message_encode_decode() {
    let mut buf = [0u8; MAX_MESSAGE_SIZE];
    let ic = InitiateContact {
        version_requested: Version::Copper.raw(),
        target_message_vp: 0,
        interrupt_page_or_target_info: 0,
        parent_to_child_monitor_page_gpa: 0,
        child_to_parent_monitor_page_gpa: 0,
    };
    let used = message::encode(&ic, &mut buf);
    assert_eq!(used, InitiateContact::MESSAGE_SIZE);
    let ty = message::peek_header(&buf[..used]).unwrap();
    assert_eq!(ty, MessageType(MessageType::INITIATE_CONTACT));
    let parsed: InitiateContact = message::parse(&buf[..used]).unwrap();
    assert_eq!(parsed, ic);
}

#[test]
fn message_parse_rejects_truncated() {
    let mut buf = [0u8; MAX_MESSAGE_SIZE];
    let ic = InitiateContact::new_zeroed();
    let _ = message::encode(&ic, &mut buf);
    // Truncate below the InitiateContact body.
    let err = message::parse::<InitiateContact>(&buf[..HEADER_SIZE + 4]).unwrap_err();
    assert!(matches!(err, Error::Parse { .. }));
}

#[test]
fn message_parse_rejects_wrong_type() {
    let mut buf = [0u8; MAX_MESSAGE_SIZE];
    let ic = InitiateContact::new_zeroed();
    let used = message::encode(&ic, &mut buf);
    let err = message::parse::<VersionResponse>(&buf[..used]).unwrap_err();
    assert!(matches!(err, Error::UnexpectedMessage(_)));
}

#[test]
fn packet_descriptor_size() {
    // Descriptor is 16 bytes across every VMBus version.
    assert_eq!(PacketDescriptor::wire_size(), 16);
}

#[test]
fn words_are_little_endian() {
    assert_eq!(0x1234u16.as_bytes(), vec![0x34, 0x12]);
    assert_eq!(0x1234_5678u32.as_bytes(), vec![0x78, 0x56, 0x34, 0x12]);
    assert_eq!(
        0x0102_0304_0506_0708u64.as_bytes(),
        vec![8, 7, 6, 5, 4, 3, 2, 1]
    );
    assert_eq!(u16::read_from_prefix(&[0x34, 0x12, 9]), Some((0x1234, &[9u8][..])));
    assert_eq!(u32::read_from_prefix(&[1, 2, 3, 4]), Some((0x0403_0201, &[][..])));
    assert_eq!(
        u64::read_from_prefix(&[1, 2, 3, 4, 5, 6, 7, 8]),
        Some((0x0807_0605_0403_0201, &[][..]))
    );
    assert_eq!(u64::read_from_prefix(&[1, 2, 3]), None);
}

#[test]
fn fields_stand_in_order() {
    let close = CloseChannel { channel_id: vmbus_guest::protocol::ChannelId(0xAABB_CCDD) };
    assert_eq!(close.as_bytes(), vec![0xDD, 0xCC, 0xBB, 0xAA]);
    let bytes = message::encode_to_vec(&close);
    assert_eq!(bytes[..4], MessageType::CLOSE_CHANNEL.to_le_bytes());
    assert_eq!(bytes[4..8], [0, 0, 0, 0]);
    assert_eq!(bytes[8..], [0xDD, 0xCC, 0xBB, 0xAA]);
}

#[test]
fn version_words() {
    assert_eq!(Version::V1.raw(), 0x0000_000d);
    assert_eq!(Version::Win8.raw(), 0x0002_0004);
    assert_eq!(Version::Win10.raw(), 0x0004_0000);
    assert_eq!(Version::Win10Rs3_1.raw(), 0x0005_0000);
    assert_eq!(Version::Copper.raw(), 0x0006_0000);
    assert!(Version::Copper.at_least(Version::Iron));
    assert!(!Version::Win10.at_least(Version::Win10Rs4));
}

#[test]
fn flags_change_one_bit() {
    let flags = FeatureFlags::supported().with_client_id(false);
    assert!(!flags.client_id());
    assert!(flags.modify_connection());
    assert_eq!(flags.with_client_id(true).0, FeatureFlags::supported().0);
    assert!(!PacketFlags::new().request_completion());
    assert!(PacketFlags::new().with_request_completion(true).request_completion());
    let offer = OfferFlags(0).with_named_pipe_mode(true);
    assert!(offer.named_pipe_mode());
    assert_eq!(offer.0, 1 << 4);
}

#[test]
fn user_defined_data_text() {
    let mut data = UserDefinedData::default();
    assert_eq!(data.debug_text(), "UserDefinedData([<all-zeroes>])");
    data.0[0] = 0xAB;
    data.0[119] = 0x05;
    let mut expected = "UserDefinedData([AB".to_string();
    for _ in 0..118 {
        expected.push_str("00");
    }
    expected.push_str("05])");
    assert_eq!(data.debug_text(), expected);
}

#[test]
fn hvsock_params_are_the_leading_bytes() {
    let mut data = UserDefinedData::default();
    data.0[4] = 1;
    data.0[6] = 7;
    let params = data.as_hvsock_params();
    assert_eq!(params.is_for_guest_accept, 1);
    assert_eq!(params.version, HvsockParametersVersion(7));
    assert_eq!(params.as_bytes(), data.0[..28].to_vec());
}
