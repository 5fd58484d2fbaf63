//! The completion table and message routing.
use vmbus_guest::connection::OfferCollector;
use vmbus_guest::hvsock::ConnectResultHandler;
use vmbus_guest::hvsock::IgnoreResults;
use vmbus_guest::message::completion_key_for;
use vmbus_guest::message::encode;
use vmbus_guest::message::encode_to_vec;
use vmbus_guest::message::guid_to_key;
use vmbus_guest::message::route_message;
use vmbus_guest::message::CompletionKey;
use vmbus_guest::message::CompletionTable;
use vmbus_guest::protocol::ChannelId;
use vmbus_guest::protocol::GpadlCreated;
use vmbus_guest::protocol::GpadlId;
use vmbus_guest::protocol::GpadlTorndown;
use vmbus_guest::protocol::Guid;
use vmbus_guest::protocol::OfferChannel;
use vmbus_guest::protocol::OpenResult;
use vmbus_guest::protocol::RescindChannelOffer;
use vmbus_guest::protocol::TlConnectResult;
use vmbus_guest::protocol::UnloadComplete;
use vmbus_guest::protocol::VersionResponse;
use vmbus_guest::protocol::MAX_MESSAGE_SIZE;
use vmbus_guest::wire::Wire;
use vmbus_guest::Error;

#[test]
fn register_deliver_take() {
    let mut table = CompletionTable::new();
    let handle = table.register(CompletionKey::VersionResponse);
    assert!(!handle.completed(&table));
    assert_eq!(handle.take_response(&mut table), None);

    table
        .deliver(CompletionKey::VersionResponse, vec![1u8, 2, 3])
        .unwrap();
    assert!(handle.completed(&table));
    assert_eq!(handle.take_response(&mut table), Some(vec![1u8, 2, 3]));
    // Second take yields None.
    assert_eq!(handle.take_response(&mut table), None);
}

#[test]
fn deliver_orphan_completion() {
    let mut table = CompletionTable::new();
    let err = table
        .deliver(CompletionKey::VersionResponse, vec![])
        .unwrap_err();
    assert!(matches!(err, Error::OrphanCompletion));
}

#[test]
fn multiple_keys_independent() {
    let mut table = CompletionTable::new();
    let a = table.register(CompletionKey::GpadlCreated(GpadlId(1)));
    let b = table.register(CompletionKey::GpadlCreated(GpadlId(2)));
    assert_eq!(table.pending(), 2);
    table
        .deliver(CompletionKey::GpadlCreated(GpadlId(2)), vec![])
        .unwrap();
    assert!(b.completed(&table));
    assert!(!a.completed(&table));
}

#[test]
fn drop_removes_registration() {
    let mut table = CompletionTable::new();
    {
        let _h = table.register(CompletionKey::VersionResponse);
        assert_eq!(table.pending(), 1);
    }
    assert_eq!(table.pending(), 0);
}

#[test]
fn completion_key_for_version_response() {
    let mut buf = [0u8; MAX_MESSAGE_SIZE];
    let vr = VersionResponse::new_zeroed();
    let used = encode(&vr, &mut buf);
    let key = completion_key_for(&buf[..used]).unwrap().unwrap();
    assert_eq!(key, CompletionKey::VersionResponse);
}

#[test]
fn completion_key_for_gpadl_created_uses_id() {
    let mut buf = [0u8; MAX_MESSAGE_SIZE];
    let mut gc = GpadlCreated::new_zeroed();
    gc.gpadl_id = GpadlId(0xDEAD_BEEF);
    let used = encode(&gc, &mut buf);
    let key = completion_key_for(&buf[..used]).unwrap().unwrap();
    assert_eq!(key, CompletionKey::GpadlCreated(GpadlId(0xDEAD_BEEF)));
}

#[test]
fn completion_key_for_open_result_uses_open_id() {
    let mut buf = [0u8; MAX_MESSAGE_SIZE];
    let mut or = OpenResult::new_zeroed();
    or.channel_id = ChannelId(1);
    or.open_id = 0x1234;
    let used = encode(&or, &mut buf);
    let key = completion_key_for(&buf[..used]).unwrap().unwrap();
    assert_eq!(key, CompletionKey::OpenChannelResult(0x1234));
}

#[test]
fn completion_key_for_torndown_and_unload() {
    let mut buf = [0u8; MAX_MESSAGE_SIZE];
    let mut gt = GpadlTorndown::new_zeroed();
    gt.gpadl_id = GpadlId(9);
    let used = encode(&gt, &mut buf);
    let key = completion_key_for(&buf[..used]).unwrap().unwrap();
    assert_eq!(key, CompletionKey::GpadlTorndown(GpadlId(9)));

    let used = encode(&UnloadComplete, &mut buf);
    let key = completion_key_for(&buf[..used]).unwrap().unwrap();
    assert_eq!(key, CompletionKey::UnloadComplete);
}

#[test]
fn completion_key_for_non_completion_returns_none() {
    let mut buf = [0u8; MAX_MESSAGE_SIZE];
    // OfferChannel is not a completion.
    let oc = OfferChannel::new_zeroed();
    let used = encode(&oc, &mut buf);
    assert!(completion_key_for(&buf[..used]).unwrap().is_none());
}

#[test]
fn delivery_to_a_dropped_handle_is_an_orphan() {
    let mut table = CompletionTable::new();
    let handle = table.register(CompletionKey::UnloadComplete);
    drop(handle);
    let err = table.deliver(CompletionKey::UnloadComplete, vec![1]).unwrap_err();
    assert!(matches!(err, Error::OrphanCompletion));
}

#[test]
fn a_second_registration_takes_over() {
    let mut table = CompletionTable::new();
    let first = table.register(CompletionKey::UnloadComplete);
    let second = table.register(CompletionKey::UnloadComplete);
    table.deliver(CompletionKey::UnloadComplete, vec![5]).unwrap();
    assert!(!first.completed(&table));
    assert!(second.completed(&table));
    assert_eq!(second.key(), CompletionKey::UnloadComplete);
}

#[test]
fn clones_keep_a_registration() {
    let mut table = CompletionTable::new();
    let a = table.register(CompletionKey::UnloadComplete);
    let b = a.clone();
    drop(a);
    assert_eq!(table.pending(), 1);
    drop(b);
    assert_eq!(table.pending(), 0);
}

#[test]
fn guid_keys_are_little_endian() {
    let mut g = Guid::default();
    assert_eq!(guid_to_key(&g), 0);
    g.data1 = 1;
    assert_eq!(guid_to_key(&g), 1);
    g.data4[7] = 0x80;
    assert_eq!(guid_to_key(&g), 1 | (0x80 << 120));
}

#[test]
fn offers_and_rescinds_reach_the_sink() {
    let mut table = CompletionTable::new();
    let mut sink = OfferCollector::default();
    let mut nobody: Option<IgnoreResults> = None;
    for id in [3u32, 1, 2] {
        let mut offer = OfferChannel::new_zeroed();
        offer.channel_id = ChannelId(id);
        route_message(&encode_to_vec(&offer), &mut table, &mut sink, &mut nobody).unwrap();
    }
    let rescind = RescindChannelOffer { channel_id: ChannelId(1) };
    route_message(&encode_to_vec(&rescind), &mut table, &mut sink, &mut nobody).unwrap();
    let ids: Vec<u32> = sink.offers.iter().map(|o| o.channel_id.0).collect();
    assert_eq!(ids, vec![3, 1, 2]);
}

#[test]
fn completions_reach_the_table() {
    let mut table = CompletionTable::new();
    let mut sink = OfferCollector::default();
    let mut nobody: Option<IgnoreResults> = None;
    let handle = table.register(CompletionKey::UnloadComplete);
    let bytes = encode_to_vec(&UnloadComplete);
    route_message(&bytes, &mut table, &mut sink, &mut nobody).unwrap();
    assert_eq!(handle.take_response(&mut table), Some(bytes));
    // A message nobody waits for is dropped without an error.
    route_message(&encode_to_vec(&UnloadComplete), &mut table, &mut sink, &mut nobody).unwrap();
    assert!(matches!(
        route_message(&[1, 2, 3], &mut table, &mut sink, &mut nobody),
        Err(Error::Parse { .. })
    ));
}

/// Keeps the status of every connect result.
struct Statuses(Vec<i32>);

impl ConnectResultHandler for Statuses {
    fn handle(&mut self, result: &TlConnectResult) {
        self.0.push(result.status);
    }
}

#[test]
fn connect_results_reach_the_handler_whatever_the_sink() {
    let mut table = CompletionTable::new();
    let mut sink = OfferCollector::default();
    let mut handler = Some(Statuses(Vec::new()));
    let mut result = TlConnectResult::new_zeroed();
    for status in [-7, 3] {
        result.status = status;
        route_message(&encode_to_vec(&result), &mut table, &mut sink, &mut handler).unwrap();
    }
    // Other messages do not concern it.
    route_message(&encode_to_vec(&UnloadComplete), &mut table, &mut sink, &mut handler).unwrap();
    assert_eq!(handler.unwrap().0, vec![-7, 3]);
}
