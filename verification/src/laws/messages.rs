//! Messages between guest and host, byte by byte.
//!
//! Every message starts with its type and four zero bytes; its body follows
//! at byte 8.
use crate::error::Error;
use crate::error::Result;
use crate::laws::decoding;
use crate::laws::layout;
use crate::message;
use crate::message::CompletionKey;
use crate::protocol;
use crate::protocol::AllOffersDelivered;
use crate::protocol::CloseChannel;
use crate::protocol::GpadlBody;
use crate::protocol::GpadlCreated;
use crate::protocol::GpadlHeader;
use crate::protocol::GpadlTeardown;
use crate::protocol::GpadlTorndown;
use crate::protocol::InitiateContact;
use crate::protocol::InitiateContact2;
use crate::protocol::ModifyChannelResponse;
use crate::protocol::OfferChannel;
use crate::protocol::OpenChannel;
use crate::protocol::OpenChannel2;
use crate::protocol::OpenResult;
use crate::protocol::Pause;
use crate::protocol::PauseResponse;
use crate::protocol::RelIdReleased;
use crate::protocol::RequestOffers;
use crate::protocol::RescindChannelOffer;
use crate::protocol::Resume;
use crate::protocol::TlConnectRequest;
use crate::protocol::TlConnectRequest2;
use crate::protocol::TlConnectResult;
use crate::protocol::Unload;
use crate::protocol::UnloadComplete;
use crate::protocol::VersionResponse;
use crate::protocol::VersionResponse2;
use crate::protocol::VersionResponse3;
use crate::protocol::ChannelId;
use crate::protocol::GpadlId;
use crate::protocol::Guid;
use crate::protocol::MessageHeader;
use crate::protocol::MessageType;
use crate::protocol::VmbusMessage;
use crate::wire;
use crate::wire::Wire;
use vstd::prelude::*;

verus! {

/// The header of a message, and where its body stands.
pub proof fn lemma_message<M: VmbusMessage>(m: M, p: Seq<u8>)
    requires
        p == protocol::message_bytes(m),
    ensures
        p.len() == 8 + M::wire_len(),
        layout::word32(p, 0) == M::type_word(),
        layout::word32(p, 4) == 0,
        p.subrange(8, p.len() as int) == m.wire(),
{
    let h = MessageHeader { message_type: MessageType(M::type_word()), padding: 0 };
    h.lemma_wire_len();
    m.lemma_wire_len();
    assert(p.subrange(0, 8) =~= h.wire());
    layout::law_message_header_layout(h, p, 0);
    assert(p.subrange(8, p.len() as int) =~= m.wire());
}

/// The type word of a message that came in.
pub proof fn lemma_type(b: Seq<u8>)
    requires
        b.len() >= 8,
    ensures
        message::type_of(b).0 == layout::word32(b, 0),
{
    decoding::law_message_header_decodes(b.take(8));
    let h = wire::decoded::<MessageHeader>(b.take(8));
    assert(b.subrange(0, 8) =~= b.take(8));
    layout::law_message_header_layout(h, b, 0);
}

/// When a message is taken for one of type `M`.
pub proof fn lemma_parsed<M: VmbusMessage>(b: Seq<u8>)
    ensures
        message::parsed::<M>(b) is Ok <==> b.len() >= 8 + M::wire_len() && layout::word32(b, 0)
            == M::type_word(),
        b.len() < 8 ==> message::parsed::<M>(b) == Err::<M, Error>(
            Error::Parse { ty: None, reason: "message shorter than header" },
        ),
        b.len() >= 8 && layout::word32(b, 0) != M::type_word() ==> message::parsed::<M>(b) == Err::<
            M,
            Error,
        >(Error::UnexpectedMessage(MessageType(layout::word32(b, 0) as u32))),
        8 <= b.len() < 8 + M::wire_len() && layout::word32(b, 0) == M::type_word()
            ==> message::parsed::<M>(b) == Err::<M, Error>(
            Error::Parse {
                ty: Some(MessageType(M::type_word())),
                reason: "message body truncated",
            },
        ),
        message::parsed::<M>(b) matches Ok(m) ==> m == wire::decoded::<M>(
            b.subrange(8, 8 + M::wire_len() as int),
        ),
{
    if b.len() >= 8 {
        lemma_type(b);
    }
}

/// Law: what is sent is the type, a zero word and the body, whether it goes
/// to a vector or to the front of a buffer, whose rest is zero.
pub proof fn law_sent<M: VmbusMessage>(m: M, r: Vec<u8>, out: &mut [u8; 240], used: usize)
    requires
        call_ensures(message::encode_to_vec::<M>, (&m,), r),
        call_ensures(message::encode::<M>, (&m, out), used),
        8 + M::wire_len() <= 240,
    ensures
        r@.len() == 8 + M::wire_len(),
        layout::word32(r@, 0) == M::type_word(),
        layout::word32(r@, 4) == 0,
        r@.skip(8) == m.wire(),
        used == 8 + M::wire_len(),
        forall|i: int| 0 <= i < used ==> #[trigger] final(out)@[i] == r@[i],
        forall|i: int| used <= i < 240 ==> #[trigger] final(out)@[i] == 0,
{
    lemma_message(m, r@);
    assert(r@.skip(8) =~= r@.subrange(8, r@.len() as int));
}

/// Law: the type of a message is the number in its first four bytes; one
/// that is shorter than a header has none.
pub proof fn law_peeked(b: &[u8], r: Result<MessageType>)
    requires
        call_ensures(message::peek_header, (b,), r),
    ensures
        r is Ok <==> b@.len() >= 8,
        r matches Ok(ty) ==> ty.0 == layout::word32(b@, 0),
{
    if b@.len() >= 8 {
        lemma_type(b@);
    }
}

/// Law: a message that is not taken is refused for a reason: it is shorter
/// than a header, it is of another type, which the error names, or its body
/// is cut short.
pub proof fn law_refused<M: VmbusMessage>(b: &[u8], r: Result<M>)
    requires
        call_ensures(message::parse::<M>, (b,), r),
        r is Err,
    ensures
        match r->Err_0 {
            Error::UnexpectedMessage(ty) => {
                &&& b@.len() >= 8
                &&& ty.0 == layout::word32(b@, 0)
                &&& ty.0 != M::type_word()
            },
            Error::Parse { ty: None, .. } => b@.len() < 8,
            Error::Parse { ty: Some(ty), .. } => {
                &&& 8 <= b@.len() < 8 + M::wire_len()
                &&& ty.0 == layout::word32(b@, 0)
                &&& ty.0 == M::type_word()
            },
            _ => false,
        },
{
    lemma_parsed::<M>(b@);
}

/// Law: the number that stands for a GUID is made of its sixteen bytes,
/// least significant first.
pub proof fn law_guid_key(g: Guid, r: u128)
    requires
        call_ensures(message::guid_to_key, (&g,), r),
    ensures
        r == layout::word64(g.wire(), 0) + 0x1_0000_0000_0000_0000 * layout::word64(g.wire(), 8),
        r % 0x1_0000_0000 == g.data1,
{
    let b = g.wire();
    g.lemma_wire_len();
    assert(b.subrange(0, 16) =~= b);
    layout::law_guid_layout(g, b, 0);
    lemma_le_value16(b);
}

/// The number that sixteen bytes stand for.
proof fn lemma_le_value16(b: Seq<u8>)
    requires
        b.len() == 16,
    ensures
        message::le_value(b) == layout::word64(b, 0) + 0x1_0000_0000_0000_0000 * layout::word64(b, 8),
{
    lemma_le_value4(b);
    let b4 = b.skip(4);
    let b8 = b.skip(8);
    let b12 = b.skip(12);
    lemma_le_value4(b4);
    lemma_le_value4(b8);
    lemma_le_value4(b12);
    assert(b4.skip(4) =~= b8);
    assert(b8.skip(4) =~= b12);
    assert(b12.skip(4) =~= Seq::<u8>::empty());
    assert(message::le_value(b12.skip(4)) == 0);
}

proof fn lemma_le_value4(b: Seq<u8>)
    requires
        b.len() >= 4,
    ensures
        message::le_value(b) == layout::word32(b, 0) + 0x1_0000_0000 * message::le_value(b.skip(4)),
{
    let b1 = b.drop_first();
    let b2 = b1.drop_first();
    let b3 = b2.drop_first();
    assert(b3.drop_first() =~= b.skip(4));
    assert(b1[0] == b[1]);
    assert(b2[0] == b[2]);
    assert(b3[0] == b[3]);
    assert(message::le_value(b) == b[0] + 256 * message::le_value(b1));
    assert(message::le_value(b1) == b[1] + 256 * message::le_value(b2));
    assert(message::le_value(b2) == b[2] + 256 * message::le_value(b3));
    assert(message::le_value(b3) == b[3] + 256 * message::le_value(b.skip(4)));
}

/// Law: which request a message answers follows from its type, and from the
/// id at its place in the body: the open id in bytes 12 to 16 of an open
/// result, the GPADL id in bytes 12 to 16 of a creation and 8 to 12 of a
/// teardown, the channel id in bytes 8 to 12 of a modification, and the
/// endpoint id in bytes 8 to 24 of a connect result.
pub proof fn law_completion_key(b: &[u8], r: Result<Option<CompletionKey>>)
    requires
        call_ensures(message::completion_key_for, (b,), r),
    ensures
        b@.len() < 8 ==> r == Err::<Option<CompletionKey>, Error>(
            Error::Parse { ty: None, reason: "message shorter than header" },
        ),
        b@.len() >= 8 ==> {
            let ty = layout::word32(b@, 0);
            match r {
                Err(_) => {
                    ||| ty == 6 && b@.len() < 20
                    ||| ty == 10 && b@.len() < 20
                    ||| ty == 12 && b@.len() < 12
                    ||| ty == 24 && b@.len() < 16
                    ||| ty == 23 && b@.len() < 44
                },
                Ok(None) => {
                    &&& ty != 4 && ty != 6 && ty != 10 && ty != 12
                    &&& ty != 15 && ty != 17 && ty != 23 && ty != 24
                },
                Ok(Some(CompletionKey::AllOffersDelivered)) => ty == 4,
                Ok(Some(CompletionKey::VersionResponse)) => ty == 15,
                Ok(Some(CompletionKey::UnloadComplete)) => ty == 17,
                Ok(Some(CompletionKey::OpenChannelResult(id))) => ty == 6
                    && id == layout::word32(b@, 12),
                Ok(Some(CompletionKey::GpadlCreated(id))) => ty == 10 && id.0 == layout::word32(b@, 12),
                Ok(Some(CompletionKey::GpadlTorndown(id))) => ty == 12 && id.0 == layout::word32(b@, 8),
                Ok(Some(CompletionKey::ModifyChannelResponse(id))) => ty == 24 && id.0 == layout::word32(
                    b@,
                    8,
                ),
                Ok(Some(CompletionKey::TlConnectResult(key))) => ty == 23 && key == layout::word64(b@, 8)
                    + 0x1_0000_0000_0000_0000 * layout::word64(b@, 16),
            }
        },
{
    if b@.len() >= 8 {
        lemma_type(b@);
        lemma_parsed::<OpenResult>(b@);
        lemma_parsed::<GpadlCreated>(b@);
        lemma_parsed::<GpadlTorndown>(b@);
        lemma_parsed::<ModifyChannelResponse>(b@);
        lemma_parsed::<TlConnectResult>(b@);
        if message::parsed::<OpenResult>(b@) is Ok {
            decoding::law_open_result_decodes(b@.subrange(8, 20));
            layout::law_open_result_layout(message::parsed::<OpenResult>(b@)->Ok_0, b@, 8);
        }
        if message::parsed::<GpadlCreated>(b@) is Ok {
            decoding::law_gpadl_created_decodes(b@.subrange(8, 20));
            layout::law_gpadl_created_layout(message::parsed::<GpadlCreated>(b@)->Ok_0, b@, 8);
        }
        if message::parsed::<GpadlTorndown>(b@) is Ok {
            decoding::law_gpadl_torndown_decodes(b@.subrange(8, 12));
            layout::law_gpadl_torndown_layout(message::parsed::<GpadlTorndown>(b@)->Ok_0, b@, 8);
        }
        if message::parsed::<ModifyChannelResponse>(b@) is Ok {
            decoding::law_modify_channel_response_decodes(b@.subrange(8, 16));
            let m = message::parsed::<ModifyChannelResponse>(b@)->Ok_0;
            layout::law_modify_channel_response_layout(m, b@, 8);
        }
        if message::parsed::<TlConnectResult>(b@) is Ok {
            decoding::law_tl_connect_result_decodes(b@.subrange(8, 44));
            let m = message::parsed::<TlConnectResult>(b@)->Ok_0;
            let w = m.endpoint_id.wire();
            m.endpoint_id.lemma_wire_len();
            assert(m.wire() == b@.subrange(8, 44));
            assert forall|i: int| 0 <= i < 16 implies #[trigger] w[i] == b@[8 + i] by {
                assert(m.wire()[i] == w[i]);
            }
            lemma_le_value16(w);
            message::lemma_le_value_bound(w);
            assert(message::le_value(w) as u128 == message::le_value(w));
        }
    }
}

/// Law: a [`InitiateContact`] is sent as type 14, with each field in its place.
pub proof fn law_initiate_contact_sent(m: InitiateContact, r: Vec<u8>)
    requires
        call_ensures(message::encode_to_vec::<InitiateContact>, (&m,), r),
    ensures
        r@.len() == 40,
        layout::word32(r@, 0) == 14,
        layout::word32(r@, 4) == 0,
        layout::word32(r@, 8) == m.version_requested,
        layout::word32(r@, 12) == m.target_message_vp,
        layout::word64(r@, 16) == m.interrupt_page_or_target_info,
        layout::word64(r@, 24) == m.parent_to_child_monitor_page_gpa,
        layout::word64(r@, 32) == m.child_to_parent_monitor_page_gpa,
{
    lemma_message(m, r@);
    m.lemma_wire_len();
    layout::law_initiate_contact_layout(m, r@, 8);
}

/// Law: a message is received as a [`InitiateContact`] exactly if its type is 14 and
/// its body is whole, and each field is what stands in its place.
pub proof fn law_initiate_contact_received(b: &[u8], r: Result<InitiateContact>)
    requires
        call_ensures(message::parse::<InitiateContact>, (b,), r),
    ensures
        r is Ok <==> b@.len() >= 40 && layout::word32(b@, 0) == 14,
        r matches Ok(m) ==> {
            &&& layout::word32(b@, 8) == m.version_requested
            &&& layout::word32(b@, 12) == m.target_message_vp
            &&& layout::word64(b@, 16) == m.interrupt_page_or_target_info
            &&& layout::word64(b@, 24) == m.parent_to_child_monitor_page_gpa
            &&& layout::word64(b@, 32) == m.child_to_parent_monitor_page_gpa
        },
{
    lemma_parsed::<InitiateContact>(b@);
    if r is Ok {
        decoding::law_initiate_contact_decodes(b@.subrange(8, 40));
        let m = r->Ok_0;
        layout::law_initiate_contact_layout(m, b@, 8);
    }
}

/// Law: a [`InitiateContact2`] is sent as type 14, with each field in its place.
pub proof fn law_initiate_contact2_sent(m: InitiateContact2, r: Vec<u8>)
    requires
        call_ensures(message::encode_to_vec::<InitiateContact2>, (&m,), r),
    ensures
        r@.len() == 56,
        layout::word32(r@, 0) == 14,
        layout::word32(r@, 4) == 0,
        layout::word32(r@, 8) == m.initiate_contact.version_requested,
        layout::word32(r@, 12) == m.initiate_contact.target_message_vp,
        layout::word64(r@, 16) == m.initiate_contact.interrupt_page_or_target_info,
        layout::word64(r@, 24) == m.initiate_contact.parent_to_child_monitor_page_gpa,
        layout::word64(r@, 32) == m.initiate_contact.child_to_parent_monitor_page_gpa,
        layout::word32(r@, 40) == m.client_id.data1,
        layout::word16(r@, 44) == m.client_id.data2,
        layout::word16(r@, 46) == m.client_id.data3,
        forall|i: int| 0 <= i < 8 ==> #[trigger] m.client_id.data4@[i] == r@[48 + i],
{
    lemma_message(m, r@);
    m.lemma_wire_len();
    layout::law_initiate_contact2_layout(m, r@, 8);
}

/// Law: a message is received as a [`InitiateContact2`] exactly if its type is 14 and
/// its body is whole, and each field is what stands in its place.
pub proof fn law_initiate_contact2_received(b: &[u8], r: Result<InitiateContact2>)
    requires
        call_ensures(message::parse::<InitiateContact2>, (b,), r),
    ensures
        r is Ok <==> b@.len() >= 56 && layout::word32(b@, 0) == 14,
        r matches Ok(m) ==> {
            &&& layout::word32(b@, 8) == m.initiate_contact.version_requested
            &&& layout::word32(b@, 12) == m.initiate_contact.target_message_vp
            &&& layout::word64(b@, 16) == m.initiate_contact.interrupt_page_or_target_info
            &&& layout::word64(b@, 24) == m.initiate_contact.parent_to_child_monitor_page_gpa
            &&& layout::word64(b@, 32) == m.initiate_contact.child_to_parent_monitor_page_gpa
            &&& layout::word32(b@, 40) == m.client_id.data1
            &&& layout::word16(b@, 44) == m.client_id.data2
            &&& layout::word16(b@, 46) == m.client_id.data3
            &&& forall|i: int| 0 <= i < 8 ==> #[trigger] m.client_id.data4@[i] == b@[48 + i]
        },
{
    lemma_parsed::<InitiateContact2>(b@);
    if r is Ok {
        decoding::law_initiate_contact2_decodes(b@.subrange(8, 56));
        let m = r->Ok_0;
        layout::law_initiate_contact2_layout(m, b@, 8);
    }
}

/// Law: a [`VersionResponse`] is sent as type 15, with each field in its place.
pub proof fn law_version_response_sent(m: VersionResponse, r: Vec<u8>)
    requires
        call_ensures(message::encode_to_vec::<VersionResponse>, (&m,), r),
    ensures
        r@.len() == 16,
        layout::word32(r@, 0) == 15,
        layout::word32(r@, 4) == 0,
        r@[8] == m.version_supported,
        r@[9] == m.connection_state.0,
        layout::word16(r@, 10) == m.padding,
        layout::word32(r@, 12) == m.selected_version_or_connection_id,
{
    lemma_message(m, r@);
    m.lemma_wire_len();
    layout::law_version_response_layout(m, r@, 8);
}

/// Law: a message is received as a [`VersionResponse`] exactly if its type is 15 and
/// its body is whole, and each field is what stands in its place.
pub proof fn law_version_response_received(b: &[u8], r: Result<VersionResponse>)
    requires
        call_ensures(message::parse::<VersionResponse>, (b,), r),
    ensures
        r is Ok <==> b@.len() >= 16 && layout::word32(b@, 0) == 15,
        r matches Ok(m) ==> {
            &&& b@[8] == m.version_supported
            &&& b@[9] == m.connection_state.0
            &&& layout::word16(b@, 10) == m.padding
            &&& layout::word32(b@, 12) == m.selected_version_or_connection_id
        },
{
    lemma_parsed::<VersionResponse>(b@);
    if r is Ok {
        decoding::law_version_response_decodes(b@.subrange(8, 16));
        let m = r->Ok_0;
        layout::law_version_response_layout(m, b@, 8);
    }
}

/// Law: a [`VersionResponse2`] is sent as type 15, with each field in its place.
pub proof fn law_version_response2_sent(m: VersionResponse2, r: Vec<u8>)
    requires
        call_ensures(message::encode_to_vec::<VersionResponse2>, (&m,), r),
    ensures
        r@.len() == 20,
        layout::word32(r@, 0) == 15,
        layout::word32(r@, 4) == 0,
        r@[8] == m.version_response.version_supported,
        r@[9] == m.version_response.connection_state.0,
        layout::word16(r@, 10) == m.version_response.padding,
        layout::word32(r@, 12) == m.version_response.selected_version_or_connection_id,
        layout::word32(r@, 16) == m.supported_features,
{
    lemma_message(m, r@);
    m.lemma_wire_len();
    layout::law_version_response2_layout(m, r@, 8);
}

/// Law: a message is received as a [`VersionResponse2`] exactly if its type is 15 and
/// its body is whole, and each field is what stands in its place.
pub proof fn law_version_response2_received(b: &[u8], r: Result<VersionResponse2>)
    requires
        call_ensures(message::parse::<VersionResponse2>, (b,), r),
    ensures
        r is Ok <==> b@.len() >= 20 && layout::word32(b@, 0) == 15,
        r matches Ok(m) ==> {
            &&& b@[8] == m.version_response.version_supported
            &&& b@[9] == m.version_response.connection_state.0
            &&& layout::word16(b@, 10) == m.version_response.padding
            &&& layout::word32(b@, 12) == m.version_response.selected_version_or_connection_id
            &&& layout::word32(b@, 16) == m.supported_features
        },
{
    lemma_parsed::<VersionResponse2>(b@);
    if r is Ok {
        decoding::law_version_response2_decodes(b@.subrange(8, 20));
        let m = r->Ok_0;
        layout::law_version_response2_layout(m, b@, 8);
    }
}

/// Law: a [`VersionResponse3`] is sent as type 15, with each field in its place.
pub proof fn law_version_response3_sent(m: VersionResponse3, r: Vec<u8>)
    requires
        call_ensures(message::encode_to_vec::<VersionResponse3>, (&m,), r),
    ensures
        r@.len() == 40,
        layout::word32(r@, 0) == 15,
        layout::word32(r@, 4) == 0,
        r@[8] == m.version_response2.version_response.version_supported,
        r@[9] == m.version_response2.version_response.connection_state.0,
        layout::word16(r@, 10) == m.version_response2.version_response.padding,
        layout::word32(r@, 12) == m.version_response2.version_response.selected_version_or_connection_id,
        layout::word32(r@, 16) == m.version_response2.supported_features,
        layout::word32(r@, 20) == m._padding,
        layout::word64(r@, 24) == m.parent_to_child_monitor_page_gpa,
        layout::word64(r@, 32) == m.child_to_parent_monitor_page_gpa,
{
    lemma_message(m, r@);
    m.lemma_wire_len();
    layout::law_version_response3_layout(m, r@, 8);
}

/// Law: a message is received as a [`VersionResponse3`] exactly if its type is 15 and
/// its body is whole, and each field is what stands in its place.
pub proof fn law_version_response3_received(b: &[u8], r: Result<VersionResponse3>)
    requires
        call_ensures(message::parse::<VersionResponse3>, (b,), r),
    ensures
        r is Ok <==> b@.len() >= 40 && layout::word32(b@, 0) == 15,
        r matches Ok(m) ==> {
            &&& b@[8] == m.version_response2.version_response.version_supported
            &&& b@[9] == m.version_response2.version_response.connection_state.0
            &&& layout::word16(b@, 10) == m.version_response2.version_response.padding
            &&& layout::word32(b@, 12)
                == m.version_response2.version_response.selected_version_or_connection_id
            &&& layout::word32(b@, 16) == m.version_response2.supported_features
            &&& layout::word32(b@, 20) == m._padding
            &&& layout::word64(b@, 24) == m.parent_to_child_monitor_page_gpa
            &&& layout::word64(b@, 32) == m.child_to_parent_monitor_page_gpa
        },
{
    lemma_parsed::<VersionResponse3>(b@);
    if r is Ok {
        decoding::law_version_response3_decodes(b@.subrange(8, 40));
        let m = r->Ok_0;
        layout::law_version_response3_layout(m, b@, 8);
    }
}

/// Law: a [`OfferChannel`] is sent as type 1, with each field in its place.
pub proof fn law_offer_channel_sent(m: OfferChannel, r: Vec<u8>)
    requires
        call_ensures(message::encode_to_vec::<OfferChannel>, (&m,), r),
    ensures
        r@.len() == 196,
        layout::word32(r@, 0) == 1,
        layout::word32(r@, 4) == 0,
        layout::word32(r@, 8) == m.interface_id.data1,
        layout::word16(r@, 12) == m.interface_id.data2,
        layout::word16(r@, 14) == m.interface_id.data3,
        forall|i: int| 0 <= i < 8 ==> #[trigger] m.interface_id.data4@[i] == r@[16 + i],
        layout::word32(r@, 24) == m.instance_id.data1,
        layout::word16(r@, 28) == m.instance_id.data2,
        layout::word16(r@, 30) == m.instance_id.data3,
        forall|i: int| 0 <= i < 8 ==> #[trigger] m.instance_id.data4@[i] == r@[32 + i],
        layout::word32(r@, 40) == m.rsvd@[0],
        layout::word32(r@, 44) == m.rsvd@[1],
        layout::word32(r@, 48) == m.rsvd@[2],
        layout::word32(r@, 52) == m.rsvd@[3],
        layout::word16(r@, 56) == m.flags.0,
        layout::word16(r@, 58) == m.mmio_megabytes,
        forall|i: int| 0 <= i < 120 ==> #[trigger] m.user_defined.0@[i] == r@[60 + i],
        layout::word16(r@, 180) == m.subchannel_index,
        layout::word16(r@, 182) == m.mmio_megabytes_optional,
        layout::word32(r@, 184) == m.channel_id.0,
        r@[188] == m.monitor_id,
        r@[189] == m.monitor_allocated,
        layout::word16(r@, 190) == m.is_dedicated,
        layout::word32(r@, 192) == m.connection_id,
{
    lemma_message(m, r@);
    m.lemma_wire_len();
    layout::law_offer_channel_layout(m, r@, 8);
}

/// Law: a message is received as a [`OfferChannel`] exactly if its type is 1 and
/// its body is whole, and each field is what stands in its place.
pub proof fn law_offer_channel_received(b: &[u8], r: Result<OfferChannel>)
    requires
        call_ensures(message::parse::<OfferChannel>, (b,), r),
    ensures
        r is Ok <==> b@.len() >= 196 && layout::word32(b@, 0) == 1,
        r matches Ok(m) ==> {
            &&& layout::word32(b@, 8) == m.interface_id.data1
            &&& layout::word16(b@, 12) == m.interface_id.data2
            &&& layout::word16(b@, 14) == m.interface_id.data3
            &&& forall|i: int| 0 <= i < 8 ==> #[trigger] m.interface_id.data4@[i] == b@[16 + i]
            &&& layout::word32(b@, 24) == m.instance_id.data1
            &&& layout::word16(b@, 28) == m.instance_id.data2
            &&& layout::word16(b@, 30) == m.instance_id.data3
            &&& forall|i: int| 0 <= i < 8 ==> #[trigger] m.instance_id.data4@[i] == b@[32 + i]
            &&& layout::word32(b@, 40) == m.rsvd@[0]
            &&& layout::word32(b@, 44) == m.rsvd@[1]
            &&& layout::word32(b@, 48) == m.rsvd@[2]
            &&& layout::word32(b@, 52) == m.rsvd@[3]
            &&& layout::word16(b@, 56) == m.flags.0
            &&& layout::word16(b@, 58) == m.mmio_megabytes
            &&& forall|i: int| 0 <= i < 120 ==> #[trigger] m.user_defined.0@[i] == b@[60 + i]
            &&& layout::word16(b@, 180) == m.subchannel_index
            &&& layout::word16(b@, 182) == m.mmio_megabytes_optional
            &&& layout::word32(b@, 184) == m.channel_id.0
            &&& b@[188] == m.monitor_id
            &&& b@[189] == m.monitor_allocated
            &&& layout::word16(b@, 190) == m.is_dedicated
            &&& layout::word32(b@, 192) == m.connection_id
        },
{
    lemma_parsed::<OfferChannel>(b@);
    if r is Ok {
        decoding::law_offer_channel_decodes(b@.subrange(8, 196));
        let m = r->Ok_0;
        layout::law_offer_channel_layout(m, b@, 8);
    }
}

/// Law: a [`RescindChannelOffer`] is sent as type 2, with each field in its place.
pub proof fn law_rescind_channel_offer_sent(m: RescindChannelOffer, r: Vec<u8>)
    requires
        call_ensures(message::encode_to_vec::<RescindChannelOffer>, (&m,), r),
    ensures
        r@.len() == 12,
        layout::word32(r@, 0) == 2,
        layout::word32(r@, 4) == 0,
        layout::word32(r@, 8) == m.channel_id.0,
{
    lemma_message(m, r@);
    m.lemma_wire_len();
    layout::law_rescind_channel_offer_layout(m, r@, 8);
}

/// Law: a message is received as a [`RescindChannelOffer`] exactly if its type is 2 and
/// its body is whole, and each field is what stands in its place.
pub proof fn law_rescind_channel_offer_received(b: &[u8], r: Result<RescindChannelOffer>)
    requires
        call_ensures(message::parse::<RescindChannelOffer>, (b,), r),
    ensures
        r is Ok <==> b@.len() >= 12 && layout::word32(b@, 0) == 2,
        r matches Ok(m) ==> {
            &&& layout::word32(b@, 8) == m.channel_id.0
        },
{
    lemma_parsed::<RescindChannelOffer>(b@);
    if r is Ok {
        decoding::law_rescind_channel_offer_decodes(b@.subrange(8, 12));
        let m = r->Ok_0;
        layout::law_rescind_channel_offer_layout(m, b@, 8);
    }
}

/// Law: a [`GpadlHeader`] is sent as type 8, with each field in its place.
pub proof fn law_gpadl_header_sent(m: GpadlHeader, r: Vec<u8>)
    requires
        call_ensures(message::encode_to_vec::<GpadlHeader>, (&m,), r),
    ensures
        r@.len() == 20,
        layout::word32(r@, 0) == 8,
        layout::word32(r@, 4) == 0,
        layout::word32(r@, 8) == m.channel_id.0,
        layout::word32(r@, 12) == m.gpadl_id.0,
        layout::word16(r@, 16) == m.len,
        layout::word16(r@, 18) == m.count,
{
    lemma_message(m, r@);
    m.lemma_wire_len();
    layout::law_gpadl_header_layout(m, r@, 8);
}

/// Law: a message is received as a [`GpadlHeader`] exactly if its type is 8 and
/// its body is whole, and each field is what stands in its place.
pub proof fn law_gpadl_header_received(b: &[u8], r: Result<GpadlHeader>)
    requires
        call_ensures(message::parse::<GpadlHeader>, (b,), r),
    ensures
        r is Ok <==> b@.len() >= 20 && layout::word32(b@, 0) == 8,
        r matches Ok(m) ==> {
            &&& layout::word32(b@, 8) == m.channel_id.0
            &&& layout::word32(b@, 12) == m.gpadl_id.0
            &&& layout::word16(b@, 16) == m.len
            &&& layout::word16(b@, 18) == m.count
        },
{
    lemma_parsed::<GpadlHeader>(b@);
    if r is Ok {
        decoding::law_gpadl_header_decodes(b@.subrange(8, 20));
        let m = r->Ok_0;
        layout::law_gpadl_header_layout(m, b@, 8);
    }
}

/// Law: a [`GpadlBody`] is sent as type 9, with each field in its place.
pub proof fn law_gpadl_body_sent(m: GpadlBody, r: Vec<u8>)
    requires
        call_ensures(message::encode_to_vec::<GpadlBody>, (&m,), r),
    ensures
        r@.len() == 16,
        layout::word32(r@, 0) == 9,
        layout::word32(r@, 4) == 0,
        layout::word32(r@, 8) == m.rsvd,
        layout::word32(r@, 12) == m.gpadl_id.0,
{
    lemma_message(m, r@);
    m.lemma_wire_len();
    layout::law_gpadl_body_layout(m, r@, 8);
}

/// Law: a message is received as a [`GpadlBody`] exactly if its type is 9 and
/// its body is whole, and each field is what stands in its place.
pub proof fn law_gpadl_body_received(b: &[u8], r: Result<GpadlBody>)
    requires
        call_ensures(message::parse::<GpadlBody>, (b,), r),
    ensures
        r is Ok <==> b@.len() >= 16 && layout::word32(b@, 0) == 9,
        r matches Ok(m) ==> {
            &&& layout::word32(b@, 8) == m.rsvd
            &&& layout::word32(b@, 12) == m.gpadl_id.0
        },
{
    lemma_parsed::<GpadlBody>(b@);
    if r is Ok {
        decoding::law_gpadl_body_decodes(b@.subrange(8, 16));
        let m = r->Ok_0;
        layout::law_gpadl_body_layout(m, b@, 8);
    }
}

/// Law: a [`GpadlCreated`] is sent as type 10, with each field in its place.
pub proof fn law_gpadl_created_sent(m: GpadlCreated, r: Vec<u8>)
    requires
        call_ensures(message::encode_to_vec::<GpadlCreated>, (&m,), r),
    ensures
        r@.len() == 20,
        layout::word32(r@, 0) == 10,
        layout::word32(r@, 4) == 0,
        layout::word32(r@, 8) == m.channel_id.0,
        layout::word32(r@, 12) == m.gpadl_id.0,
        layout::signed32(r@, 16) == m.status,
{
    lemma_message(m, r@);
    m.lemma_wire_len();
    layout::law_gpadl_created_layout(m, r@, 8);
}

/// Law: a message is received as a [`GpadlCreated`] exactly if its type is 10 and
/// its body is whole, and each field is what stands in its place.
pub proof fn law_gpadl_created_received(b: &[u8], r: Result<GpadlCreated>)
    requires
        call_ensures(message::parse::<GpadlCreated>, (b,), r),
    ensures
        r is Ok <==> b@.len() >= 20 && layout::word32(b@, 0) == 10,
        r matches Ok(m) ==> {
            &&& layout::word32(b@, 8) == m.channel_id.0
            &&& layout::word32(b@, 12) == m.gpadl_id.0
            &&& layout::signed32(b@, 16) == m.status
        },
{
    lemma_parsed::<GpadlCreated>(b@);
    if r is Ok {
        decoding::law_gpadl_created_decodes(b@.subrange(8, 20));
        let m = r->Ok_0;
        layout::law_gpadl_created_layout(m, b@, 8);
    }
}

/// Law: a [`GpadlTeardown`] is sent as type 11, with each field in its place.
pub proof fn law_gpadl_teardown_sent(m: GpadlTeardown, r: Vec<u8>)
    requires
        call_ensures(message::encode_to_vec::<GpadlTeardown>, (&m,), r),
    ensures
        r@.len() == 16,
        layout::word32(r@, 0) == 11,
        layout::word32(r@, 4) == 0,
        layout::word32(r@, 8) == m.channel_id.0,
        layout::word32(r@, 12) == m.gpadl_id.0,
{
    lemma_message(m, r@);
    m.lemma_wire_len();
    layout::law_gpadl_teardown_layout(m, r@, 8);
}

/// Law: a message is received as a [`GpadlTeardown`] exactly if its type is 11 and
/// its body is whole, and each field is what stands in its place.
pub proof fn law_gpadl_teardown_received(b: &[u8], r: Result<GpadlTeardown>)
    requires
        call_ensures(message::parse::<GpadlTeardown>, (b,), r),
    ensures
        r is Ok <==> b@.len() >= 16 && layout::word32(b@, 0) == 11,
        r matches Ok(m) ==> {
            &&& layout::word32(b@, 8) == m.channel_id.0
            &&& layout::word32(b@, 12) == m.gpadl_id.0
        },
{
    lemma_parsed::<GpadlTeardown>(b@);
    if r is Ok {
        decoding::law_gpadl_teardown_decodes(b@.subrange(8, 16));
        let m = r->Ok_0;
        layout::law_gpadl_teardown_layout(m, b@, 8);
    }
}

/// Law: a [`GpadlTorndown`] is sent as type 12, with each field in its place.
pub proof fn law_gpadl_torndown_sent(m: GpadlTorndown, r: Vec<u8>)
    requires
        call_ensures(message::encode_to_vec::<GpadlTorndown>, (&m,), r),
    ensures
        r@.len() == 12,
        layout::word32(r@, 0) == 12,
        layout::word32(r@, 4) == 0,
        layout::word32(r@, 8) == m.gpadl_id.0,
{
    lemma_message(m, r@);
    m.lemma_wire_len();
    layout::law_gpadl_torndown_layout(m, r@, 8);
}

/// Law: a message is received as a [`GpadlTorndown`] exactly if its type is 12 and
/// its body is whole, and each field is what stands in its place.
pub proof fn law_gpadl_torndown_received(b: &[u8], r: Result<GpadlTorndown>)
    requires
        call_ensures(message::parse::<GpadlTorndown>, (b,), r),
    ensures
        r is Ok <==> b@.len() >= 12 && layout::word32(b@, 0) == 12,
        r matches Ok(m) ==> {
            &&& layout::word32(b@, 8) == m.gpadl_id.0
        },
{
    lemma_parsed::<GpadlTorndown>(b@);
    if r is Ok {
        decoding::law_gpadl_torndown_decodes(b@.subrange(8, 12));
        let m = r->Ok_0;
        layout::law_gpadl_torndown_layout(m, b@, 8);
    }
}

/// Law: a [`OpenChannel`] is sent as type 5, with each field in its place.
pub proof fn law_open_channel_sent(m: OpenChannel, r: Vec<u8>)
    requires
        call_ensures(message::encode_to_vec::<OpenChannel>, (&m,), r),
    ensures
        r@.len() == 148,
        layout::word32(r@, 0) == 5,
        layout::word32(r@, 4) == 0,
        layout::word32(r@, 8) == m.channel_id.0,
        layout::word32(r@, 12) == m.open_id,
        layout::word32(r@, 16) == m.ring_buffer_gpadl_id.0,
        layout::word32(r@, 20) == m.target_vp,
        layout::word32(r@, 24) == m.downstream_ring_buffer_page_offset,
        forall|i: int| 0 <= i < 120 ==> #[trigger] m.user_data.0@[i] == r@[28 + i],
{
    lemma_message(m, r@);
    m.lemma_wire_len();
    layout::law_open_channel_layout(m, r@, 8);
}

/// Law: a message is received as a [`OpenChannel`] exactly if its type is 5 and
/// its body is whole, and each field is what stands in its place.
pub proof fn law_open_channel_received(b: &[u8], r: Result<OpenChannel>)
    requires
        call_ensures(message::parse::<OpenChannel>, (b,), r),
    ensures
        r is Ok <==> b@.len() >= 148 && layout::word32(b@, 0) == 5,
        r matches Ok(m) ==> {
            &&& layout::word32(b@, 8) == m.channel_id.0
            &&& layout::word32(b@, 12) == m.open_id
            &&& layout::word32(b@, 16) == m.ring_buffer_gpadl_id.0
            &&& layout::word32(b@, 20) == m.target_vp
            &&& layout::word32(b@, 24) == m.downstream_ring_buffer_page_offset
            &&& forall|i: int| 0 <= i < 120 ==> #[trigger] m.user_data.0@[i] == b@[28 + i]
        },
{
    lemma_parsed::<OpenChannel>(b@);
    if r is Ok {
        decoding::law_open_channel_decodes(b@.subrange(8, 148));
        let m = r->Ok_0;
        layout::law_open_channel_layout(m, b@, 8);
    }
}

/// Law: a [`OpenChannel2`] is sent as type 5, with each field in its place.
pub proof fn law_open_channel2_sent(m: OpenChannel2, r: Vec<u8>)
    requires
        call_ensures(message::encode_to_vec::<OpenChannel2>, (&m,), r),
    ensures
        r@.len() == 156,
        layout::word32(r@, 0) == 5,
        layout::word32(r@, 4) == 0,
        layout::word32(r@, 8) == m.open_channel.channel_id.0,
        layout::word32(r@, 12) == m.open_channel.open_id,
        layout::word32(r@, 16) == m.open_channel.ring_buffer_gpadl_id.0,
        layout::word32(r@, 20) == m.open_channel.target_vp,
        layout::word32(r@, 24) == m.open_channel.downstream_ring_buffer_page_offset,
        forall|i: int| 0 <= i < 120 ==> #[trigger] m.open_channel.user_data.0@[i] == r@[28 + i],
        layout::word32(r@, 148) == m.connection_id,
        layout::word16(r@, 152) == m.event_flag,
        layout::word16(r@, 154) == m.flags.0,
{
    lemma_message(m, r@);
    m.lemma_wire_len();
    layout::law_open_channel2_layout(m, r@, 8);
}

/// Law: a message is received as a [`OpenChannel2`] exactly if its type is 5 and
/// its body is whole, and each field is what stands in its place.
pub proof fn law_open_channel2_received(b: &[u8], r: Result<OpenChannel2>)
    requires
        call_ensures(message::parse::<OpenChannel2>, (b,), r),
    ensures
        r is Ok <==> b@.len() >= 156 && layout::word32(b@, 0) == 5,
        r matches Ok(m) ==> {
            &&& layout::word32(b@, 8) == m.open_channel.channel_id.0
            &&& layout::word32(b@, 12) == m.open_channel.open_id
            &&& layout::word32(b@, 16) == m.open_channel.ring_buffer_gpadl_id.0
            &&& layout::word32(b@, 20) == m.open_channel.target_vp
            &&& layout::word32(b@, 24) == m.open_channel.downstream_ring_buffer_page_offset
            &&& forall|i: int| 0 <= i < 120 ==> #[trigger] m.open_channel.user_data.0@[i] == b@[28 + i]
            &&& layout::word32(b@, 148) == m.connection_id
            &&& layout::word16(b@, 152) == m.event_flag
            &&& layout::word16(b@, 154) == m.flags.0
        },
{
    lemma_parsed::<OpenChannel2>(b@);
    if r is Ok {
        decoding::law_open_channel2_decodes(b@.subrange(8, 156));
        let m = r->Ok_0;
        layout::law_open_channel2_layout(m, b@, 8);
    }
}

/// Law: a [`OpenResult`] is sent as type 6, with each field in its place.
pub proof fn law_open_result_sent(m: OpenResult, r: Vec<u8>)
    requires
        call_ensures(message::encode_to_vec::<OpenResult>, (&m,), r),
    ensures
        r@.len() == 20,
        layout::word32(r@, 0) == 6,
        layout::word32(r@, 4) == 0,
        layout::word32(r@, 8) == m.channel_id.0,
        layout::word32(r@, 12) == m.open_id,
        layout::word32(r@, 16) == m.status,
{
    lemma_message(m, r@);
    m.lemma_wire_len();
    layout::law_open_result_layout(m, r@, 8);
}

/// Law: a message is received as a [`OpenResult`] exactly if its type is 6 and
/// its body is whole, and each field is what stands in its place.
pub proof fn law_open_result_received(b: &[u8], r: Result<OpenResult>)
    requires
        call_ensures(message::parse::<OpenResult>, (b,), r),
    ensures
        r is Ok <==> b@.len() >= 20 && layout::word32(b@, 0) == 6,
        r matches Ok(m) ==> {
            &&& layout::word32(b@, 8) == m.channel_id.0
            &&& layout::word32(b@, 12) == m.open_id
            &&& layout::word32(b@, 16) == m.status
        },
{
    lemma_parsed::<OpenResult>(b@);
    if r is Ok {
        decoding::law_open_result_decodes(b@.subrange(8, 20));
        let m = r->Ok_0;
        layout::law_open_result_layout(m, b@, 8);
    }
}

/// Law: a [`CloseChannel`] is sent as type 7, with each field in its place.
pub proof fn law_close_channel_sent(m: CloseChannel, r: Vec<u8>)
    requires
        call_ensures(message::encode_to_vec::<CloseChannel>, (&m,), r),
    ensures
        r@.len() == 12,
        layout::word32(r@, 0) == 7,
        layout::word32(r@, 4) == 0,
        layout::word32(r@, 8) == m.channel_id.0,
{
    lemma_message(m, r@);
    m.lemma_wire_len();
    layout::law_close_channel_layout(m, r@, 8);
}

/// Law: a message is received as a [`CloseChannel`] exactly if its type is 7 and
/// its body is whole, and each field is what stands in its place.
pub proof fn law_close_channel_received(b: &[u8], r: Result<CloseChannel>)
    requires
        call_ensures(message::parse::<CloseChannel>, (b,), r),
    ensures
        r is Ok <==> b@.len() >= 12 && layout::word32(b@, 0) == 7,
        r matches Ok(m) ==> {
            &&& layout::word32(b@, 8) == m.channel_id.0
        },
{
    lemma_parsed::<CloseChannel>(b@);
    if r is Ok {
        decoding::law_close_channel_decodes(b@.subrange(8, 12));
        let m = r->Ok_0;
        layout::law_close_channel_layout(m, b@, 8);
    }
}

/// Law: a [`RelIdReleased`] is sent as type 13, with each field in its place.
pub proof fn law_rel_id_released_sent(m: RelIdReleased, r: Vec<u8>)
    requires
        call_ensures(message::encode_to_vec::<RelIdReleased>, (&m,), r),
    ensures
        r@.len() == 12,
        layout::word32(r@, 0) == 13,
        layout::word32(r@, 4) == 0,
        layout::word32(r@, 8) == m.channel_id.0,
{
    lemma_message(m, r@);
    m.lemma_wire_len();
    layout::law_rel_id_released_layout(m, r@, 8);
}

/// Law: a message is received as a [`RelIdReleased`] exactly if its type is 13 and
/// its body is whole, and each field is what stands in its place.
pub proof fn law_rel_id_released_received(b: &[u8], r: Result<RelIdReleased>)
    requires
        call_ensures(message::parse::<RelIdReleased>, (b,), r),
    ensures
        r is Ok <==> b@.len() >= 12 && layout::word32(b@, 0) == 13,
        r matches Ok(m) ==> {
            &&& layout::word32(b@, 8) == m.channel_id.0
        },
{
    lemma_parsed::<RelIdReleased>(b@);
    if r is Ok {
        decoding::law_rel_id_released_decodes(b@.subrange(8, 12));
        let m = r->Ok_0;
        layout::law_rel_id_released_layout(m, b@, 8);
    }
}

/// Law: a [`ModifyChannelResponse`] is sent as type 24, with each field in its place.
pub proof fn law_modify_channel_response_sent(m: ModifyChannelResponse, r: Vec<u8>)
    requires
        call_ensures(message::encode_to_vec::<ModifyChannelResponse>, (&m,), r),
    ensures
        r@.len() == 16,
        layout::word32(r@, 0) == 24,
        layout::word32(r@, 4) == 0,
        layout::word32(r@, 8) == m.channel_id.0,
        layout::signed32(r@, 12) == m.status,
{
    lemma_message(m, r@);
    m.lemma_wire_len();
    layout::law_modify_channel_response_layout(m, r@, 8);
}

/// Law: a message is received as a [`ModifyChannelResponse`] exactly if its type is 24 and
/// its body is whole, and each field is what stands in its place.
pub proof fn law_modify_channel_response_received(b: &[u8], r: Result<ModifyChannelResponse>)
    requires
        call_ensures(message::parse::<ModifyChannelResponse>, (b,), r),
    ensures
        r is Ok <==> b@.len() >= 16 && layout::word32(b@, 0) == 24,
        r matches Ok(m) ==> {
            &&& layout::word32(b@, 8) == m.channel_id.0
            &&& layout::signed32(b@, 12) == m.status
        },
{
    lemma_parsed::<ModifyChannelResponse>(b@);
    if r is Ok {
        decoding::law_modify_channel_response_decodes(b@.subrange(8, 16));
        let m = r->Ok_0;
        layout::law_modify_channel_response_layout(m, b@, 8);
    }
}

/// Law: a [`TlConnectRequest`] is sent as type 21, with each field in its place.
pub proof fn law_tl_connect_request_sent(m: TlConnectRequest, r: Vec<u8>)
    requires
        call_ensures(message::encode_to_vec::<TlConnectRequest>, (&m,), r),
    ensures
        r@.len() == 40,
        layout::word32(r@, 0) == 21,
        layout::word32(r@, 4) == 0,
        layout::word32(r@, 8) == m.endpoint_id.data1,
        layout::word16(r@, 12) == m.endpoint_id.data2,
        layout::word16(r@, 14) == m.endpoint_id.data3,
        forall|i: int| 0 <= i < 8 ==> #[trigger] m.endpoint_id.data4@[i] == r@[16 + i],
        layout::word32(r@, 24) == m.service_id.data1,
        layout::word16(r@, 28) == m.service_id.data2,
        layout::word16(r@, 30) == m.service_id.data3,
        forall|i: int| 0 <= i < 8 ==> #[trigger] m.service_id.data4@[i] == r@[32 + i],
{
    lemma_message(m, r@);
    m.lemma_wire_len();
    layout::law_tl_connect_request_layout(m, r@, 8);
}

/// Law: a message is received as a [`TlConnectRequest`] exactly if its type is 21 and
/// its body is whole, and each field is what stands in its place.
pub proof fn law_tl_connect_request_received(b: &[u8], r: Result<TlConnectRequest>)
    requires
        call_ensures(message::parse::<TlConnectRequest>, (b,), r),
    ensures
        r is Ok <==> b@.len() >= 40 && layout::word32(b@, 0) == 21,
        r matches Ok(m) ==> {
            &&& layout::word32(b@, 8) == m.endpoint_id.data1
            &&& layout::word16(b@, 12) == m.endpoint_id.data2
            &&& layout::word16(b@, 14) == m.endpoint_id.data3
            &&& forall|i: int| 0 <= i < 8 ==> #[trigger] m.endpoint_id.data4@[i] == b@[16 + i]
            &&& layout::word32(b@, 24) == m.service_id.data1
            &&& layout::word16(b@, 28) == m.service_id.data2
            &&& layout::word16(b@, 30) == m.service_id.data3
            &&& forall|i: int| 0 <= i < 8 ==> #[trigger] m.service_id.data4@[i] == b@[32 + i]
        },
{
    lemma_parsed::<TlConnectRequest>(b@);
    if r is Ok {
        decoding::law_tl_connect_request_decodes(b@.subrange(8, 40));
        let m = r->Ok_0;
        layout::law_tl_connect_request_layout(m, b@, 8);
    }
}

/// Law: a [`TlConnectRequest2`] is sent as type 21, with each field in its place.
pub proof fn law_tl_connect_request2_sent(m: TlConnectRequest2, r: Vec<u8>)
    requires
        call_ensures(message::encode_to_vec::<TlConnectRequest2>, (&m,), r),
    ensures
        r@.len() == 56,
        layout::word32(r@, 0) == 21,
        layout::word32(r@, 4) == 0,
        layout::word32(r@, 8) == m.base.endpoint_id.data1,
        layout::word16(r@, 12) == m.base.endpoint_id.data2,
        layout::word16(r@, 14) == m.base.endpoint_id.data3,
        forall|i: int| 0 <= i < 8 ==> #[trigger] m.base.endpoint_id.data4@[i] == r@[16 + i],
        layout::word32(r@, 24) == m.base.service_id.data1,
        layout::word16(r@, 28) == m.base.service_id.data2,
        layout::word16(r@, 30) == m.base.service_id.data3,
        forall|i: int| 0 <= i < 8 ==> #[trigger] m.base.service_id.data4@[i] == r@[32 + i],
        layout::word32(r@, 40) == m.silo_id.data1,
        layout::word16(r@, 44) == m.silo_id.data2,
        layout::word16(r@, 46) == m.silo_id.data3,
        forall|i: int| 0 <= i < 8 ==> #[trigger] m.silo_id.data4@[i] == r@[48 + i],
{
    lemma_message(m, r@);
    m.lemma_wire_len();
    layout::law_tl_connect_request2_layout(m, r@, 8);
}

/// Law: a message is received as a [`TlConnectRequest2`] exactly if its type is 21 and
/// its body is whole, and each field is what stands in its place.
pub proof fn law_tl_connect_request2_received(b: &[u8], r: Result<TlConnectRequest2>)
    requires
        call_ensures(message::parse::<TlConnectRequest2>, (b,), r),
    ensures
        r is Ok <==> b@.len() >= 56 && layout::word32(b@, 0) == 21,
        r matches Ok(m) ==> {
            &&& layout::word32(b@, 8) == m.base.endpoint_id.data1
            &&& layout::word16(b@, 12) == m.base.endpoint_id.data2
            &&& layout::word16(b@, 14) == m.base.endpoint_id.data3
            &&& forall|i: int| 0 <= i < 8 ==> #[trigger] m.base.endpoint_id.data4@[i] == b@[16 + i]
            &&& layout::word32(b@, 24) == m.base.service_id.data1
            &&& layout::word16(b@, 28) == m.base.service_id.data2
            &&& layout::word16(b@, 30) == m.base.service_id.data3
            &&& forall|i: int| 0 <= i < 8 ==> #[trigger] m.base.service_id.data4@[i] == b@[32 + i]
            &&& layout::word32(b@, 40) == m.silo_id.data1
            &&& layout::word16(b@, 44) == m.silo_id.data2
            &&& layout::word16(b@, 46) == m.silo_id.data3
            &&& forall|i: int| 0 <= i < 8 ==> #[trigger] m.silo_id.data4@[i] == b@[48 + i]
        },
{
    lemma_parsed::<TlConnectRequest2>(b@);
    if r is Ok {
        decoding::law_tl_connect_request2_decodes(b@.subrange(8, 56));
        let m = r->Ok_0;
        layout::law_tl_connect_request2_layout(m, b@, 8);
    }
}

/// Law: a [`TlConnectResult`] is sent as type 23, with each field in its place.
pub proof fn law_tl_connect_result_sent(m: TlConnectResult, r: Vec<u8>)
    requires
        call_ensures(message::encode_to_vec::<TlConnectResult>, (&m,), r),
    ensures
        r@.len() == 44,
        layout::word32(r@, 0) == 23,
        layout::word32(r@, 4) == 0,
        layout::word32(r@, 8) == m.endpoint_id.data1,
        layout::word16(r@, 12) == m.endpoint_id.data2,
        layout::word16(r@, 14) == m.endpoint_id.data3,
        forall|i: int| 0 <= i < 8 ==> #[trigger] m.endpoint_id.data4@[i] == r@[16 + i],
        layout::word32(r@, 24) == m.service_id.data1,
        layout::word16(r@, 28) == m.service_id.data2,
        layout::word16(r@, 30) == m.service_id.data3,
        forall|i: int| 0 <= i < 8 ==> #[trigger] m.service_id.data4@[i] == r@[32 + i],
        layout::signed32(r@, 40) == m.status,
{
    lemma_message(m, r@);
    m.lemma_wire_len();
    layout::law_tl_connect_result_layout(m, r@, 8);
}

/// Law: a message is received as a [`TlConnectResult`] exactly if its type is 23 and
/// its body is whole, and each field is what stands in its place.
pub proof fn law_tl_connect_result_received(b: &[u8], r: Result<TlConnectResult>)
    requires
        call_ensures(message::parse::<TlConnectResult>, (b,), r),
    ensures
        r is Ok <==> b@.len() >= 44 && layout::word32(b@, 0) == 23,
        r matches Ok(m) ==> {
            &&& layout::word32(b@, 8) == m.endpoint_id.data1
            &&& layout::word16(b@, 12) == m.endpoint_id.data2
            &&& layout::word16(b@, 14) == m.endpoint_id.data3
            &&& forall|i: int| 0 <= i < 8 ==> #[trigger] m.endpoint_id.data4@[i] == b@[16 + i]
            &&& layout::word32(b@, 24) == m.service_id.data1
            &&& layout::word16(b@, 28) == m.service_id.data2
            &&& layout::word16(b@, 30) == m.service_id.data3
            &&& forall|i: int| 0 <= i < 8 ==> #[trigger] m.service_id.data4@[i] == b@[32 + i]
            &&& layout::signed32(b@, 40) == m.status
        },
{
    lemma_parsed::<TlConnectResult>(b@);
    if r is Ok {
        decoding::law_tl_connect_result_decodes(b@.subrange(8, 44));
        let m = r->Ok_0;
        layout::law_tl_connect_result_layout(m, b@, 8);
    }
}

/// Law: a [`RequestOffers`] is sent as type 3, with each field in its place.
pub proof fn law_request_offers_sent(m: RequestOffers, r: Vec<u8>)
    requires
        call_ensures(message::encode_to_vec::<RequestOffers>, (&m,), r),
    ensures
        r@.len() == 8,
        layout::word32(r@, 0) == 3,
        layout::word32(r@, 4) == 0,
{
    lemma_message(m, r@);
    m.lemma_wire_len();
    layout::law_request_offers_layout(m);
}

/// Law: a message is received as a [`RequestOffers`] exactly if its type is 3.
pub proof fn law_request_offers_received(b: &[u8], r: Result<RequestOffers>)
    requires
        call_ensures(message::parse::<RequestOffers>, (b,), r),
    ensures
        r is Ok <==> b@.len() >= 8 && layout::word32(b@, 0) == 3,
{
    lemma_parsed::<RequestOffers>(b@);
}

/// Law: a [`AllOffersDelivered`] is sent as type 4, with each field in its place.
pub proof fn law_all_offers_delivered_sent(m: AllOffersDelivered, r: Vec<u8>)
    requires
        call_ensures(message::encode_to_vec::<AllOffersDelivered>, (&m,), r),
    ensures
        r@.len() == 8,
        layout::word32(r@, 0) == 4,
        layout::word32(r@, 4) == 0,
{
    lemma_message(m, r@);
    m.lemma_wire_len();
    layout::law_all_offers_delivered_layout(m);
}

/// Law: a message is received as a [`AllOffersDelivered`] exactly if its type is 4.
pub proof fn law_all_offers_delivered_received(b: &[u8], r: Result<AllOffersDelivered>)
    requires
        call_ensures(message::parse::<AllOffersDelivered>, (b,), r),
    ensures
        r is Ok <==> b@.len() >= 8 && layout::word32(b@, 0) == 4,
{
    lemma_parsed::<AllOffersDelivered>(b@);
}

/// Law: a [`Unload`] is sent as type 16, with each field in its place.
pub proof fn law_unload_sent(m: Unload, r: Vec<u8>)
    requires
        call_ensures(message::encode_to_vec::<Unload>, (&m,), r),
    ensures
        r@.len() == 8,
        layout::word32(r@, 0) == 16,
        layout::word32(r@, 4) == 0,
{
    lemma_message(m, r@);
    m.lemma_wire_len();
    layout::law_unload_layout(m);
}

/// Law: a message is received as a [`Unload`] exactly if its type is 16.
pub proof fn law_unload_received(b: &[u8], r: Result<Unload>)
    requires
        call_ensures(message::parse::<Unload>, (b,), r),
    ensures
        r is Ok <==> b@.len() >= 8 && layout::word32(b@, 0) == 16,
{
    lemma_parsed::<Unload>(b@);
}

/// Law: a [`UnloadComplete`] is sent as type 17, with each field in its place.
pub proof fn law_unload_complete_sent(m: UnloadComplete, r: Vec<u8>)
    requires
        call_ensures(message::encode_to_vec::<UnloadComplete>, (&m,), r),
    ensures
        r@.len() == 8,
        layout::word32(r@, 0) == 17,
        layout::word32(r@, 4) == 0,
{
    lemma_message(m, r@);
    m.lemma_wire_len();
    layout::law_unload_complete_layout(m);
}

/// Law: a message is received as a [`UnloadComplete`] exactly if its type is 17.
pub proof fn law_unload_complete_received(b: &[u8], r: Result<UnloadComplete>)
    requires
        call_ensures(message::parse::<UnloadComplete>, (b,), r),
    ensures
        r is Ok <==> b@.len() >= 8 && layout::word32(b@, 0) == 17,
{
    lemma_parsed::<UnloadComplete>(b@);
}

/// Law: a [`Pause`] is sent as type 27, with each field in its place.
pub proof fn law_pause_sent(m: Pause, r: Vec<u8>)
    requires
        call_ensures(message::encode_to_vec::<Pause>, (&m,), r),
    ensures
        r@.len() == 8,
        layout::word32(r@, 0) == 27,
        layout::word32(r@, 4) == 0,
{
    lemma_message(m, r@);
    m.lemma_wire_len();
    layout::law_pause_layout(m);
}

/// Law: a message is received as a [`Pause`] exactly if its type is 27.
pub proof fn law_pause_received(b: &[u8], r: Result<Pause>)
    requires
        call_ensures(message::parse::<Pause>, (b,), r),
    ensures
        r is Ok <==> b@.len() >= 8 && layout::word32(b@, 0) == 27,
{
    lemma_parsed::<Pause>(b@);
}

/// Law: a [`PauseResponse`] is sent as type 28, with each field in its place.
pub proof fn law_pause_response_sent(m: PauseResponse, r: Vec<u8>)
    requires
        call_ensures(message::encode_to_vec::<PauseResponse>, (&m,), r),
    ensures
        r@.len() == 8,
        layout::word32(r@, 0) == 28,
        layout::word32(r@, 4) == 0,
{
    lemma_message(m, r@);
    m.lemma_wire_len();
    layout::law_pause_response_layout(m);
}

/// Law: a message is received as a [`PauseResponse`] exactly if its type is 28.
pub proof fn law_pause_response_received(b: &[u8], r: Result<PauseResponse>)
    requires
        call_ensures(message::parse::<PauseResponse>, (b,), r),
    ensures
        r is Ok <==> b@.len() >= 8 && layout::word32(b@, 0) == 28,
{
    lemma_parsed::<PauseResponse>(b@);
}

/// Law: a [`Resume`] is sent as type 29, with each field in its place.
pub proof fn law_resume_sent(m: Resume, r: Vec<u8>)
    requires
        call_ensures(message::encode_to_vec::<Resume>, (&m,), r),
    ensures
        r@.len() == 8,
        layout::word32(r@, 0) == 29,
        layout::word32(r@, 4) == 0,
{
    lemma_message(m, r@);
    m.lemma_wire_len();
    layout::law_resume_layout(m);
}

/// Law: a message is received as a [`Resume`] exactly if its type is 29.
pub proof fn law_resume_received(b: &[u8], r: Result<Resume>)
    requires
        call_ensures(message::parse::<Resume>, (b,), r),
    ensures
        r is Ok <==> b@.len() >= 8 && layout::word32(b@, 0) == 29,
{
    lemma_parsed::<Resume>(b@);
}

} // verus!
