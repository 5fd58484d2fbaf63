//! Raw primitives.
use vmbus_guest::connection::ConnectionState;
use vmbus_guest::fuzz::relids;
use vmbus_guest::fuzz::resolve_connection_id;
use vmbus_guest::protocol::ChannelId;
use vmbus_guest::protocol::FeatureFlags;
use vmbus_guest::protocol::OfferChannel;
use vmbus_guest::protocol::Version;
use vmbus_guest::protocol::VMBUS_CONNECTION_ID_MODERN;
use vmbus_guest::wire::Wire;

#[test]
fn resolve_connection_id_masks_to_24_bits() {
    assert_eq!(resolve_connection_id(&None, 0xdead_beef_u64), 0xad_beef);
    assert_eq!(resolve_connection_id(&None, 4), 4);
    assert_eq!(resolve_connection_id(&None, 1), 1);
}

#[test]
fn resolve_connection_id_zero_uses_default_without_connection() {
    // No negotiation has happened, so the version-appropriate default is
    // used. The ladder starts at Copper (6.0), i.e. the modern id.
    assert_eq!(resolve_connection_id(&None, 0), VMBUS_CONNECTION_ID_MODERN);
}

#[test]
fn relids_projects_channel_ids() {
    let mut a = OfferChannel::new_zeroed();
    a.channel_id = ChannelId(7);
    let mut b = OfferChannel::new_zeroed();
    b.channel_id = ChannelId(9);
    assert_eq!(relids(&[a, b]), vec![7, 9]);
}

#[test]
fn resolve_connection_id_zero_uses_the_negotiated_one() {
    let agreed = ConnectionState {
        selected_version: Version::Iron,
        post_message_connection_id: 0x1234_5678,
        feature_flags: FeatureFlags(0),
        parent_to_child_monitor_page_gpa: 0,
        child_to_parent_monitor_page_gpa: 0,
    };
    assert_eq!(resolve_connection_id(&Some(agreed), 0), 0x1234_5678);
    assert_eq!(resolve_connection_id(&Some(agreed), 5), 5);
}
