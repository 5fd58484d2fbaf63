//! Every byte string of the right length is read as some value.
//!
//! With [`crate::laws::layout`] this says what each field of a value is that
//! was read: the bytes it was read from, at the field's place.
use crate::devices::keyboard;
use crate::devices::netvsp;
use crate::hv;
use crate::le;
use crate::packet;
use crate::protocol;
use crate::wire;
use crate::wire::Wire;
use vstd::prelude::*;

verus! {

/// Law: one byte is read as itself.
pub proof fn law_u8_decodes(b: Seq<u8>)
    requires
        b.len() == 1,
    ensures
        wire::decoded::<u8>(b).wire() == b,
{
    assert(b[0].wire() =~= b);
    wire::lemma_decoded(b[0]);
}

/// Law: any two bytes are a number.
pub proof fn law_u16_decodes(b: Seq<u8>)
    requires
        b.len() == 2,
    ensures
        wire::decoded::<u16>(b).wire() == b,
{
    let v = le::u16_at(b, 0);
    le::lemma_le16(v, b, 0);
    assert(b.subrange(0, 2) =~= b);
    assert(v.wire() == b);
    wire::lemma_decoded(v);
}

/// Law: any four bytes are a number.
pub proof fn law_u32_decodes(b: Seq<u8>)
    requires
        b.len() == 4,
    ensures
        wire::decoded::<u32>(b).wire() == b,
{
    let v = le::u32_at(b, 0);
    le::lemma_le32(v, b, 0);
    assert(b.subrange(0, 4) =~= b);
    assert(v.wire() == b);
    wire::lemma_decoded(v);
}

/// Law: any eight bytes are a number.
pub proof fn law_u64_decodes(b: Seq<u8>)
    requires
        b.len() == 8,
    ensures
        wire::decoded::<u64>(b).wire() == b,
{
    let v = le::u64_at(b, 0);
    le::lemma_le64(v, b, 0);
    assert(b.subrange(0, 8) =~= b);
    assert(v.wire() == b);
    wire::lemma_decoded(v);
}

/// Law: any four bytes are a signed number.
pub proof fn law_i32_decodes(b: Seq<u8>)
    requires
        b.len() == 4,
    ensures
        wire::decoded::<i32>(b).wire() == b,
{
    let u = le::u32_at(b, 0);
    le::lemma_le32(u, b, 0);
    assert(b.subrange(0, 4) =~= b);
    let v = u as i32;
    assert((u as i32) as u32 == u) by (bit_vector);
    assert(v.wire() == b);
    wire::lemma_decoded(v);
}

/// An array that agrees with `b` in its first `n` places.
proof fn array_of<const N: usize>(b: Seq<u8>, n: int) -> (a: [u8; N])
    requires
        b.len() == N,
        0 <= n <= N,
    ensures
        forall|i: int| 0 <= i < n ==> a@[i] == b[i],
    decreases n,
{
    if n == 0 {
        arbitrary()
    } else {
        let a = array_of::<N>(b, n - 1);
        vstd::array::axiom_spec_array_update(a, n - 1, b[n - 1]);
        vstd::array::spec_array_update(a, n - 1, b[n - 1])
    }
}

/// Law: bytes are read as they stand.
pub proof fn law_bytes_decode<const N: usize>(b: Seq<u8>)
    requires
        b.len() == N,
    ensures
        wire::decoded::<[u8; N]>(b).wire() == b,
{
    let a = array_of::<N>(b, N as int);
    assert(a.wire() =~= b);
    wire::lemma_decoded(a);
}

/// Law: any sixteen bytes are four numbers.
pub proof fn law_words_decode(b: Seq<u8>)
    requires
        b.len() == 16,
    ensures
        wire::decoded::<[u32; 4]>(b).wire() == b,
{
    law_u32_decodes(b.subrange(0, 4));
    law_u32_decodes(b.subrange(4, 8));
    law_u32_decodes(b.subrange(8, 12));
    law_u32_decodes(b.subrange(12, 16));
    let x: [u32; 4] = arbitrary();
    let x0 = vstd::array::spec_array_update(x, 0, wire::decoded::<u32>(b.subrange(0, 4)));
    let x1 = vstd::array::spec_array_update(x0, 1, wire::decoded::<u32>(b.subrange(4, 8)));
    let x2 = vstd::array::spec_array_update(x1, 2, wire::decoded::<u32>(b.subrange(8, 12)));
    let x3 = vstd::array::spec_array_update(x2, 3, wire::decoded::<u32>(b.subrange(12, 16)));
    vstd::array::axiom_spec_array_update(x, 0, wire::decoded::<u32>(b.subrange(0, 4)));
    vstd::array::axiom_spec_array_update(x0, 1, wire::decoded::<u32>(b.subrange(4, 8)));
    vstd::array::axiom_spec_array_update(x1, 2, wire::decoded::<u32>(b.subrange(8, 12)));
    vstd::array::axiom_spec_array_update(x2, 3, wire::decoded::<u32>(b.subrange(12, 16)));
    assert(x3.wire() =~= b);
    wire::lemma_decoded(x3);
}

/// Law: any sixteen bytes are a section.
pub proof fn law_sections_decode(b: Seq<u8>)
    requires
        b.len() == 16,
    ensures
        wire::decoded::<[netvsp::Nvsp1ReceiveBufferSection; 1]>(b).wire() == b,
{
    law_nvsp_nvsp1_receive_buffer_section_decodes(b);
    let x: [netvsp::Nvsp1ReceiveBufferSection; 1] = arbitrary();
    let s = wire::decoded::<netvsp::Nvsp1ReceiveBufferSection>(b);
    let y = vstd::array::spec_array_update(x, 0, s);
    vstd::array::axiom_spec_array_update(x, 0, s);
    assert(y.wire() =~= b);
    wire::lemma_decoded(y);
}

/// Law: any 16 bytes are read as a [`protocol::Guid`].
pub proof fn law_guid_decodes(b: Seq<u8>)
    requires
        b.len() == 16,
    ensures
        wire::decoded::<protocol::Guid>(b).wire() == b,
{
    law_u32_decodes(b.subrange(0, 4));
    law_u16_decodes(b.subrange(4, 6));
    law_u16_decodes(b.subrange(6, 8));
    law_bytes_decode::<8>(b.subrange(8, 16));
    let v = protocol::Guid {
        data1: wire::decoded::<u32>(b.subrange(0, 4)),
        data2: wire::decoded::<u16>(b.subrange(4, 6)),
        data3: wire::decoded::<u16>(b.subrange(6, 8)),
        data4: wire::decoded::<[u8; 8]>(b.subrange(8, 16)),
    };
    assert(v.wire() =~= b);
    wire::lemma_decoded(v);
}

/// Law: any 4 bytes are read as a [`protocol::MessageType`].
pub proof fn law_message_type_decodes(b: Seq<u8>)
    requires
        b.len() == 4,
    ensures
        wire::decoded::<protocol::MessageType>(b).wire() == b,
{
    law_u32_decodes(b.subrange(0, 4));
    let v = protocol::MessageType(wire::decoded::<u32>(b.subrange(0, 4)));
    assert(v.wire() =~= b);
    wire::lemma_decoded(v);
}

/// Law: any 8 bytes are read as a [`protocol::MessageHeader`].
pub proof fn law_message_header_decodes(b: Seq<u8>)
    requires
        b.len() == 8,
    ensures
        wire::decoded::<protocol::MessageHeader>(b).wire() == b,
{
    law_message_type_decodes(b.subrange(0, 4));
    law_u32_decodes(b.subrange(4, 8));
    let v = protocol::MessageHeader {
        message_type: wire::decoded::<protocol::MessageType>(b.subrange(0, 4)),
        padding: wire::decoded::<u32>(b.subrange(4, 8)),
    };
    assert(v.wire() =~= b);
    wire::lemma_decoded(v);
}

/// Law: any 4 bytes are read as a [`protocol::FeatureFlags`].
pub proof fn law_feature_flags_decodes(b: Seq<u8>)
    requires
        b.len() == 4,
    ensures
        wire::decoded::<protocol::FeatureFlags>(b).wire() == b,
{
    law_u32_decodes(b.subrange(0, 4));
    let v = protocol::FeatureFlags(wire::decoded::<u32>(b.subrange(0, 4)));
    assert(v.wire() =~= b);
    wire::lemma_decoded(v);
}

/// Law: any 4 bytes are read as a [`protocol::ChannelId`].
pub proof fn law_channel_id_decodes(b: Seq<u8>)
    requires
        b.len() == 4,
    ensures
        wire::decoded::<protocol::ChannelId>(b).wire() == b,
{
    law_u32_decodes(b.subrange(0, 4));
    let v = protocol::ChannelId(wire::decoded::<u32>(b.subrange(0, 4)));
    assert(v.wire() =~= b);
    wire::lemma_decoded(v);
}

/// Law: any 4 bytes are read as a [`protocol::GpadlId`].
pub proof fn law_gpadl_id_decodes(b: Seq<u8>)
    requires
        b.len() == 4,
    ensures
        wire::decoded::<protocol::GpadlId>(b).wire() == b,
{
    law_u32_decodes(b.subrange(0, 4));
    let v = protocol::GpadlId(wire::decoded::<u32>(b.subrange(0, 4)));
    assert(v.wire() =~= b);
    wire::lemma_decoded(v);
}

/// Law: any 32 bytes are read as a [`protocol::InitiateContact`].
pub proof fn law_initiate_contact_decodes(b: Seq<u8>)
    requires
        b.len() == 32,
    ensures
        wire::decoded::<protocol::InitiateContact>(b).wire() == b,
{
    law_u32_decodes(b.subrange(0, 4));
    law_u32_decodes(b.subrange(4, 8));
    law_u64_decodes(b.subrange(8, 16));
    law_u64_decodes(b.subrange(16, 24));
    law_u64_decodes(b.subrange(24, 32));
    let v = protocol::InitiateContact {
        version_requested: wire::decoded::<u32>(b.subrange(0, 4)),
        target_message_vp: wire::decoded::<u32>(b.subrange(4, 8)),
        interrupt_page_or_target_info: wire::decoded::<u64>(b.subrange(8, 16)),
        parent_to_child_monitor_page_gpa: wire::decoded::<u64>(b.subrange(16, 24)),
        child_to_parent_monitor_page_gpa: wire::decoded::<u64>(b.subrange(24, 32)),
    };
    assert(v.wire() =~= b);
    wire::lemma_decoded(v);
}

/// Law: any 48 bytes are read as a [`protocol::InitiateContact2`].
pub proof fn law_initiate_contact2_decodes(b: Seq<u8>)
    requires
        b.len() == 48,
    ensures
        wire::decoded::<protocol::InitiateContact2>(b).wire() == b,
{
    law_initiate_contact_decodes(b.subrange(0, 32));
    law_guid_decodes(b.subrange(32, 48));
    let v = protocol::InitiateContact2 {
        initiate_contact: wire::decoded::<protocol::InitiateContact>(b.subrange(0, 32)),
        client_id: wire::decoded::<protocol::Guid>(b.subrange(32, 48)),
    };
    assert(v.wire() =~= b);
    wire::lemma_decoded(v);
}

/// Law: any 1 bytes are read as a [`protocol::ConnectionState`].
pub proof fn law_connection_state_decodes(b: Seq<u8>)
    requires
        b.len() == 1,
    ensures
        wire::decoded::<protocol::ConnectionState>(b).wire() == b,
{
    law_u8_decodes(b.subrange(0, 1));
    let v = protocol::ConnectionState(wire::decoded::<u8>(b.subrange(0, 1)));
    assert(v.wire() =~= b);
    wire::lemma_decoded(v);
}

/// Law: any 8 bytes are read as a [`protocol::VersionResponse`].
pub proof fn law_version_response_decodes(b: Seq<u8>)
    requires
        b.len() == 8,
    ensures
        wire::decoded::<protocol::VersionResponse>(b).wire() == b,
{
    law_u8_decodes(b.subrange(0, 1));
    law_connection_state_decodes(b.subrange(1, 2));
    law_u16_decodes(b.subrange(2, 4));
    law_u32_decodes(b.subrange(4, 8));
    let v = protocol::VersionResponse {
        version_supported: wire::decoded::<u8>(b.subrange(0, 1)),
        connection_state: wire::decoded::<protocol::ConnectionState>(b.subrange(1, 2)),
        padding: wire::decoded::<u16>(b.subrange(2, 4)),
        selected_version_or_connection_id: wire::decoded::<u32>(b.subrange(4, 8)),
    };
    assert(v.wire() =~= b);
    wire::lemma_decoded(v);
}

/// Law: any 12 bytes are read as a [`protocol::VersionResponse2`].
pub proof fn law_version_response2_decodes(b: Seq<u8>)
    requires
        b.len() == 12,
    ensures
        wire::decoded::<protocol::VersionResponse2>(b).wire() == b,
{
    law_version_response_decodes(b.subrange(0, 8));
    law_u32_decodes(b.subrange(8, 12));
    let v = protocol::VersionResponse2 {
        version_response: wire::decoded::<protocol::VersionResponse>(b.subrange(0, 8)),
        supported_features: wire::decoded::<u32>(b.subrange(8, 12)),
    };
    assert(v.wire() =~= b);
    wire::lemma_decoded(v);
}

/// Law: any 32 bytes are read as a [`protocol::VersionResponse3`].
pub proof fn law_version_response3_decodes(b: Seq<u8>)
    requires
        b.len() == 32,
    ensures
        wire::decoded::<protocol::VersionResponse3>(b).wire() == b,
{
    law_version_response2_decodes(b.subrange(0, 12));
    law_u32_decodes(b.subrange(12, 16));
    law_u64_decodes(b.subrange(16, 24));
    law_u64_decodes(b.subrange(24, 32));
    let v = protocol::VersionResponse3 {
        version_response2: wire::decoded::<protocol::VersionResponse2>(b.subrange(0, 12)),
        _padding: wire::decoded::<u32>(b.subrange(12, 16)),
        parent_to_child_monitor_page_gpa: wire::decoded::<u64>(b.subrange(16, 24)),
        child_to_parent_monitor_page_gpa: wire::decoded::<u64>(b.subrange(24, 32)),
    };
    assert(v.wire() =~= b);
    wire::lemma_decoded(v);
}

/// Law: any 120 bytes are read as a [`protocol::UserDefinedData`].
pub proof fn law_user_defined_data_decodes(b: Seq<u8>)
    requires
        b.len() == 120,
    ensures
        wire::decoded::<protocol::UserDefinedData>(b).wire() == b,
{
    law_bytes_decode::<120>(b.subrange(0, 120));
    let v = protocol::UserDefinedData(wire::decoded::<[u8; 120]>(b.subrange(0, 120)));
    assert(v.wire() =~= b);
    wire::lemma_decoded(v);
}

/// Law: any 2 bytes are read as a [`protocol::OfferFlags`].
pub proof fn law_offer_flags_decodes(b: Seq<u8>)
    requires
        b.len() == 2,
    ensures
        wire::decoded::<protocol::OfferFlags>(b).wire() == b,
{
    law_u16_decodes(b.subrange(0, 2));
    let v = protocol::OfferFlags(wire::decoded::<u16>(b.subrange(0, 2)));
    assert(v.wire() =~= b);
    wire::lemma_decoded(v);
}

/// Law: any 188 bytes are read as a [`protocol::OfferChannel`].
pub proof fn law_offer_channel_decodes(b: Seq<u8>)
    requires
        b.len() == 188,
    ensures
        wire::decoded::<protocol::OfferChannel>(b).wire() == b,
{
    law_guid_decodes(b.subrange(0, 16));
    law_guid_decodes(b.subrange(16, 32));
    law_words_decode(b.subrange(32, 48));
    law_offer_flags_decodes(b.subrange(48, 50));
    law_u16_decodes(b.subrange(50, 52));
    law_user_defined_data_decodes(b.subrange(52, 172));
    law_u16_decodes(b.subrange(172, 174));
    law_u16_decodes(b.subrange(174, 176));
    law_channel_id_decodes(b.subrange(176, 180));
    law_u8_decodes(b.subrange(180, 181));
    law_u8_decodes(b.subrange(181, 182));
    law_u16_decodes(b.subrange(182, 184));
    law_u32_decodes(b.subrange(184, 188));
    let v = protocol::OfferChannel {
        interface_id: wire::decoded::<protocol::Guid>(b.subrange(0, 16)),
        instance_id: wire::decoded::<protocol::Guid>(b.subrange(16, 32)),
        rsvd: wire::decoded::<[u32; 4]>(b.subrange(32, 48)),
        flags: wire::decoded::<protocol::OfferFlags>(b.subrange(48, 50)),
        mmio_megabytes: wire::decoded::<u16>(b.subrange(50, 52)),
        user_defined: wire::decoded::<protocol::UserDefinedData>(b.subrange(52, 172)),
        subchannel_index: wire::decoded::<u16>(b.subrange(172, 174)),
        mmio_megabytes_optional: wire::decoded::<u16>(b.subrange(174, 176)),
        channel_id: wire::decoded::<protocol::ChannelId>(b.subrange(176, 180)),
        monitor_id: wire::decoded::<u8>(b.subrange(180, 181)),
        monitor_allocated: wire::decoded::<u8>(b.subrange(181, 182)),
        is_dedicated: wire::decoded::<u16>(b.subrange(182, 184)),
        connection_id: wire::decoded::<u32>(b.subrange(184, 188)),
    };
    assert(v.wire() =~= b);
    wire::lemma_decoded(v);
}

/// Law: any 4 bytes are read as a [`protocol::RescindChannelOffer`].
pub proof fn law_rescind_channel_offer_decodes(b: Seq<u8>)
    requires
        b.len() == 4,
    ensures
        wire::decoded::<protocol::RescindChannelOffer>(b).wire() == b,
{
    law_channel_id_decodes(b.subrange(0, 4));
    let v = protocol::RescindChannelOffer {
        channel_id: wire::decoded::<protocol::ChannelId>(b.subrange(0, 4)),
    };
    assert(v.wire() =~= b);
    wire::lemma_decoded(v);
}

/// Law: any 12 bytes are read as a [`protocol::GpadlHeader`].
pub proof fn law_gpadl_header_decodes(b: Seq<u8>)
    requires
        b.len() == 12,
    ensures
        wire::decoded::<protocol::GpadlHeader>(b).wire() == b,
{
    law_channel_id_decodes(b.subrange(0, 4));
    law_gpadl_id_decodes(b.subrange(4, 8));
    law_u16_decodes(b.subrange(8, 10));
    law_u16_decodes(b.subrange(10, 12));
    let v = protocol::GpadlHeader {
        channel_id: wire::decoded::<protocol::ChannelId>(b.subrange(0, 4)),
        gpadl_id: wire::decoded::<protocol::GpadlId>(b.subrange(4, 8)),
        len: wire::decoded::<u16>(b.subrange(8, 10)),
        count: wire::decoded::<u16>(b.subrange(10, 12)),
    };
    assert(v.wire() =~= b);
    wire::lemma_decoded(v);
}

/// Law: any 8 bytes are read as a [`protocol::GpadlBody`].
pub proof fn law_gpadl_body_decodes(b: Seq<u8>)
    requires
        b.len() == 8,
    ensures
        wire::decoded::<protocol::GpadlBody>(b).wire() == b,
{
    law_u32_decodes(b.subrange(0, 4));
    law_gpadl_id_decodes(b.subrange(4, 8));
    let v = protocol::GpadlBody {
        rsvd: wire::decoded::<u32>(b.subrange(0, 4)),
        gpadl_id: wire::decoded::<protocol::GpadlId>(b.subrange(4, 8)),
    };
    assert(v.wire() =~= b);
    wire::lemma_decoded(v);
}

/// Law: any 12 bytes are read as a [`protocol::GpadlCreated`].
pub proof fn law_gpadl_created_decodes(b: Seq<u8>)
    requires
        b.len() == 12,
    ensures
        wire::decoded::<protocol::GpadlCreated>(b).wire() == b,
{
    law_channel_id_decodes(b.subrange(0, 4));
    law_gpadl_id_decodes(b.subrange(4, 8));
    law_i32_decodes(b.subrange(8, 12));
    let v = protocol::GpadlCreated {
        channel_id: wire::decoded::<protocol::ChannelId>(b.subrange(0, 4)),
        gpadl_id: wire::decoded::<protocol::GpadlId>(b.subrange(4, 8)),
        status: wire::decoded::<i32>(b.subrange(8, 12)),
    };
    assert(v.wire() =~= b);
    wire::lemma_decoded(v);
}

/// Law: any 8 bytes are read as a [`protocol::GpadlTeardown`].
pub proof fn law_gpadl_teardown_decodes(b: Seq<u8>)
    requires
        b.len() == 8,
    ensures
        wire::decoded::<protocol::GpadlTeardown>(b).wire() == b,
{
    law_channel_id_decodes(b.subrange(0, 4));
    law_gpadl_id_decodes(b.subrange(4, 8));
    let v = protocol::GpadlTeardown {
        channel_id: wire::decoded::<protocol::ChannelId>(b.subrange(0, 4)),
        gpadl_id: wire::decoded::<protocol::GpadlId>(b.subrange(4, 8)),
    };
    assert(v.wire() =~= b);
    wire::lemma_decoded(v);
}

/// Law: any 4 bytes are read as a [`protocol::GpadlTorndown`].
pub proof fn law_gpadl_torndown_decodes(b: Seq<u8>)
    requires
        b.len() == 4,
    ensures
        wire::decoded::<protocol::GpadlTorndown>(b).wire() == b,
{
    law_gpadl_id_decodes(b.subrange(0, 4));
    let v = protocol::GpadlTorndown {
        gpadl_id: wire::decoded::<protocol::GpadlId>(b.subrange(0, 4)),
    };
    assert(v.wire() =~= b);
    wire::lemma_decoded(v);
}

/// Law: any 140 bytes are read as a [`protocol::OpenChannel`].
pub proof fn law_open_channel_decodes(b: Seq<u8>)
    requires
        b.len() == 140,
    ensures
        wire::decoded::<protocol::OpenChannel>(b).wire() == b,
{
    law_channel_id_decodes(b.subrange(0, 4));
    law_u32_decodes(b.subrange(4, 8));
    law_gpadl_id_decodes(b.subrange(8, 12));
    law_u32_decodes(b.subrange(12, 16));
    law_u32_decodes(b.subrange(16, 20));
    law_user_defined_data_decodes(b.subrange(20, 140));
    let v = protocol::OpenChannel {
        channel_id: wire::decoded::<protocol::ChannelId>(b.subrange(0, 4)),
        open_id: wire::decoded::<u32>(b.subrange(4, 8)),
        ring_buffer_gpadl_id: wire::decoded::<protocol::GpadlId>(b.subrange(8, 12)),
        target_vp: wire::decoded::<u32>(b.subrange(12, 16)),
        downstream_ring_buffer_page_offset: wire::decoded::<u32>(b.subrange(16, 20)),
        user_data: wire::decoded::<protocol::UserDefinedData>(b.subrange(20, 140)),
    };
    assert(v.wire() =~= b);
    wire::lemma_decoded(v);
}

/// Law: any 2 bytes are read as a [`protocol::OpenChannelFlags`].
pub proof fn law_open_channel_flags_decodes(b: Seq<u8>)
    requires
        b.len() == 2,
    ensures
        wire::decoded::<protocol::OpenChannelFlags>(b).wire() == b,
{
    law_u16_decodes(b.subrange(0, 2));
    let v = protocol::OpenChannelFlags(wire::decoded::<u16>(b.subrange(0, 2)));
    assert(v.wire() =~= b);
    wire::lemma_decoded(v);
}

/// Law: any 148 bytes are read as a [`protocol::OpenChannel2`].
pub proof fn law_open_channel2_decodes(b: Seq<u8>)
    requires
        b.len() == 148,
    ensures
        wire::decoded::<protocol::OpenChannel2>(b).wire() == b,
{
    law_open_channel_decodes(b.subrange(0, 140));
    law_u32_decodes(b.subrange(140, 144));
    law_u16_decodes(b.subrange(144, 146));
    law_open_channel_flags_decodes(b.subrange(146, 148));
    let v = protocol::OpenChannel2 {
        open_channel: wire::decoded::<protocol::OpenChannel>(b.subrange(0, 140)),
        connection_id: wire::decoded::<u32>(b.subrange(140, 144)),
        event_flag: wire::decoded::<u16>(b.subrange(144, 146)),
        flags: wire::decoded::<protocol::OpenChannelFlags>(b.subrange(146, 148)),
    };
    assert(v.wire() =~= b);
    wire::lemma_decoded(v);
}

/// Law: any 12 bytes are read as a [`protocol::OpenResult`].
pub proof fn law_open_result_decodes(b: Seq<u8>)
    requires
        b.len() == 12,
    ensures
        wire::decoded::<protocol::OpenResult>(b).wire() == b,
{
    law_channel_id_decodes(b.subrange(0, 4));
    law_u32_decodes(b.subrange(4, 8));
    law_u32_decodes(b.subrange(8, 12));
    let v = protocol::OpenResult {
        channel_id: wire::decoded::<protocol::ChannelId>(b.subrange(0, 4)),
        open_id: wire::decoded::<u32>(b.subrange(4, 8)),
        status: wire::decoded::<u32>(b.subrange(8, 12)),
    };
    assert(v.wire() =~= b);
    wire::lemma_decoded(v);
}

/// Law: any 4 bytes are read as a [`protocol::CloseChannel`].
pub proof fn law_close_channel_decodes(b: Seq<u8>)
    requires
        b.len() == 4,
    ensures
        wire::decoded::<protocol::CloseChannel>(b).wire() == b,
{
    law_channel_id_decodes(b.subrange(0, 4));
    let v = protocol::CloseChannel {
        channel_id: wire::decoded::<protocol::ChannelId>(b.subrange(0, 4)),
    };
    assert(v.wire() =~= b);
    wire::lemma_decoded(v);
}

/// Law: any 4 bytes are read as a [`protocol::RelIdReleased`].
pub proof fn law_rel_id_released_decodes(b: Seq<u8>)
    requires
        b.len() == 4,
    ensures
        wire::decoded::<protocol::RelIdReleased>(b).wire() == b,
{
    law_channel_id_decodes(b.subrange(0, 4));
    let v = protocol::RelIdReleased {
        channel_id: wire::decoded::<protocol::ChannelId>(b.subrange(0, 4)),
    };
    assert(v.wire() =~= b);
    wire::lemma_decoded(v);
}

/// Law: any 20 bytes are read as a [`protocol::OpenReservedChannel`].
pub proof fn law_open_reserved_channel_decodes(b: Seq<u8>)
    requires
        b.len() == 20,
    ensures
        wire::decoded::<protocol::OpenReservedChannel>(b).wire() == b,
{
    law_channel_id_decodes(b.subrange(0, 4));
    law_u32_decodes(b.subrange(4, 8));
    law_u32_decodes(b.subrange(8, 12));
    law_gpadl_id_decodes(b.subrange(12, 16));
    law_u32_decodes(b.subrange(16, 20));
    let v = protocol::OpenReservedChannel {
        channel_id: wire::decoded::<protocol::ChannelId>(b.subrange(0, 4)),
        target_vp: wire::decoded::<u32>(b.subrange(4, 8)),
        target_sint: wire::decoded::<u32>(b.subrange(8, 12)),
        ring_buffer_gpadl: wire::decoded::<protocol::GpadlId>(b.subrange(12, 16)),
        downstream_page_offset: wire::decoded::<u32>(b.subrange(16, 20)),
    };
    assert(v.wire() =~= b);
    wire::lemma_decoded(v);
}

/// Law: any 12 bytes are read as a [`protocol::CloseReservedChannel`].
pub proof fn law_close_reserved_channel_decodes(b: Seq<u8>)
    requires
        b.len() == 12,
    ensures
        wire::decoded::<protocol::CloseReservedChannel>(b).wire() == b,
{
    law_channel_id_decodes(b.subrange(0, 4));
    law_u32_decodes(b.subrange(4, 8));
    law_u32_decodes(b.subrange(8, 12));
    let v = protocol::CloseReservedChannel {
        channel_id: wire::decoded::<protocol::ChannelId>(b.subrange(0, 4)),
        target_vp: wire::decoded::<u32>(b.subrange(4, 8)),
        target_sint: wire::decoded::<u32>(b.subrange(8, 12)),
    };
    assert(v.wire() =~= b);
    wire::lemma_decoded(v);
}

/// Law: any 4 bytes are read as a [`protocol::CloseReservedChannelResponse`].
pub proof fn law_close_reserved_channel_response_decodes(b: Seq<u8>)
    requires
        b.len() == 4,
    ensures
        wire::decoded::<protocol::CloseReservedChannelResponse>(b).wire() == b,
{
    law_channel_id_decodes(b.subrange(0, 4));
    let v = protocol::CloseReservedChannelResponse {
        channel_id: wire::decoded::<protocol::ChannelId>(b.subrange(0, 4)),
    };
    assert(v.wire() =~= b);
    wire::lemma_decoded(v);
}

/// Law: any 8 bytes are read as a [`protocol::ModifyChannel`].
pub proof fn law_modify_channel_decodes(b: Seq<u8>)
    requires
        b.len() == 8,
    ensures
        wire::decoded::<protocol::ModifyChannel>(b).wire() == b,
{
    law_channel_id_decodes(b.subrange(0, 4));
    law_u32_decodes(b.subrange(4, 8));
    let v = protocol::ModifyChannel {
        channel_id: wire::decoded::<protocol::ChannelId>(b.subrange(0, 4)),
        target_vp: wire::decoded::<u32>(b.subrange(4, 8)),
    };
    assert(v.wire() =~= b);
    wire::lemma_decoded(v);
}

/// Law: any 8 bytes are read as a [`protocol::ModifyChannelResponse`].
pub proof fn law_modify_channel_response_decodes(b: Seq<u8>)
    requires
        b.len() == 8,
    ensures
        wire::decoded::<protocol::ModifyChannelResponse>(b).wire() == b,
{
    law_channel_id_decodes(b.subrange(0, 4));
    law_i32_decodes(b.subrange(4, 8));
    let v = protocol::ModifyChannelResponse {
        channel_id: wire::decoded::<protocol::ChannelId>(b.subrange(0, 4)),
        status: wire::decoded::<i32>(b.subrange(4, 8)),
    };
    assert(v.wire() =~= b);
    wire::lemma_decoded(v);
}

/// Law: any 16 bytes are read as a [`protocol::ModifyConnection`].
pub proof fn law_modify_connection_decodes(b: Seq<u8>)
    requires
        b.len() == 16,
    ensures
        wire::decoded::<protocol::ModifyConnection>(b).wire() == b,
{
    law_u64_decodes(b.subrange(0, 8));
    law_u64_decodes(b.subrange(8, 16));
    let v = protocol::ModifyConnection {
        parent_to_child_monitor_page_gpa: wire::decoded::<u64>(b.subrange(0, 8)),
        child_to_parent_monitor_page_gpa: wire::decoded::<u64>(b.subrange(8, 16)),
    };
    assert(v.wire() =~= b);
    wire::lemma_decoded(v);
}

/// Law: any 1 bytes are read as a [`protocol::ModifyConnectionResponse`].
pub proof fn law_modify_connection_response_decodes(b: Seq<u8>)
    requires
        b.len() == 1,
    ensures
        wire::decoded::<protocol::ModifyConnectionResponse>(b).wire() == b,
{
    law_connection_state_decodes(b.subrange(0, 1));
    let v = protocol::ModifyConnectionResponse {
        connection_state: wire::decoded::<protocol::ConnectionState>(b.subrange(0, 1)),
    };
    assert(v.wire() =~= b);
    wire::lemma_decoded(v);
}

/// Law: any 4 bytes are read as a [`protocol::PipeType`].
pub proof fn law_pipe_type_decodes(b: Seq<u8>)
    requires
        b.len() == 4,
    ensures
        wire::decoded::<protocol::PipeType>(b).wire() == b,
{
    law_u32_decodes(b.subrange(0, 4));
    let v = protocol::PipeType(wire::decoded::<u32>(b.subrange(0, 4)));
    assert(v.wire() =~= b);
    wire::lemma_decoded(v);
}

/// Law: any 4 bytes are read as a [`protocol::PipeUserDefinedParameters`].
pub proof fn law_pipe_user_defined_parameters_decodes(b: Seq<u8>)
    requires
        b.len() == 4,
    ensures
        wire::decoded::<protocol::PipeUserDefinedParameters>(b).wire() == b,
{
    law_pipe_type_decodes(b.subrange(0, 4));
    let v = protocol::PipeUserDefinedParameters {
        pipe_type: wire::decoded::<protocol::PipeType>(b.subrange(0, 4)),
    };
    assert(v.wire() =~= b);
    wire::lemma_decoded(v);
}

/// Law: any 4 bytes are read as a [`protocol::HvsockParametersVersion`].
pub proof fn law_hvsock_parameters_version_decodes(b: Seq<u8>)
    requires
        b.len() == 4,
    ensures
        wire::decoded::<protocol::HvsockParametersVersion>(b).wire() == b,
{
    law_u32_decodes(b.subrange(0, 4));
    let v = protocol::HvsockParametersVersion(wire::decoded::<u32>(b.subrange(0, 4)));
    assert(v.wire() =~= b);
    wire::lemma_decoded(v);
}

/// Law: any 28 bytes are read as a [`protocol::HvsockUserDefinedParameters`].
pub proof fn law_hvsock_user_defined_parameters_decodes(b: Seq<u8>)
    requires
        b.len() == 28,
    ensures
        wire::decoded::<protocol::HvsockUserDefinedParameters>(b).wire() == b,
{
    law_pipe_user_defined_parameters_decodes(b.subrange(0, 4));
    law_u8_decodes(b.subrange(4, 5));
    law_u8_decodes(b.subrange(5, 6));
    law_hvsock_parameters_version_decodes(b.subrange(6, 10));
    law_guid_decodes(b.subrange(10, 26));
    law_bytes_decode::<2>(b.subrange(26, 28));
    let v = protocol::HvsockUserDefinedParameters {
        pipe_params: wire::decoded::<protocol::PipeUserDefinedParameters>(b.subrange(0, 4)),
        is_for_guest_accept: wire::decoded::<u8>(b.subrange(4, 5)),
        is_for_guest_container: wire::decoded::<u8>(b.subrange(5, 6)),
        version: wire::decoded::<protocol::HvsockParametersVersion>(b.subrange(6, 10)),
        silo_id: wire::decoded::<protocol::Guid>(b.subrange(10, 26)),
        _padding: wire::decoded::<[u8; 2]>(b.subrange(26, 28)),
    };
    assert(v.wire() =~= b);
    wire::lemma_decoded(v);
}

/// Law: any 32 bytes are read as a [`protocol::TlConnectRequest`].
pub proof fn law_tl_connect_request_decodes(b: Seq<u8>)
    requires
        b.len() == 32,
    ensures
        wire::decoded::<protocol::TlConnectRequest>(b).wire() == b,
{
    law_guid_decodes(b.subrange(0, 16));
    law_guid_decodes(b.subrange(16, 32));
    let v = protocol::TlConnectRequest {
        endpoint_id: wire::decoded::<protocol::Guid>(b.subrange(0, 16)),
        service_id: wire::decoded::<protocol::Guid>(b.subrange(16, 32)),
    };
    assert(v.wire() =~= b);
    wire::lemma_decoded(v);
}

/// Law: any 48 bytes are read as a [`protocol::TlConnectRequest2`].
pub proof fn law_tl_connect_request2_decodes(b: Seq<u8>)
    requires
        b.len() == 48,
    ensures
        wire::decoded::<protocol::TlConnectRequest2>(b).wire() == b,
{
    law_tl_connect_request_decodes(b.subrange(0, 32));
    law_guid_decodes(b.subrange(32, 48));
    let v = protocol::TlConnectRequest2 {
        base: wire::decoded::<protocol::TlConnectRequest>(b.subrange(0, 32)),
        silo_id: wire::decoded::<protocol::Guid>(b.subrange(32, 48)),
    };
    assert(v.wire() =~= b);
    wire::lemma_decoded(v);
}

/// Law: any 36 bytes are read as a [`protocol::TlConnectResult`].
pub proof fn law_tl_connect_result_decodes(b: Seq<u8>)
    requires
        b.len() == 36,
    ensures
        wire::decoded::<protocol::TlConnectResult>(b).wire() == b,
{
    law_guid_decodes(b.subrange(0, 16));
    law_guid_decodes(b.subrange(16, 32));
    law_i32_decodes(b.subrange(32, 36));
    let v = protocol::TlConnectResult {
        endpoint_id: wire::decoded::<protocol::Guid>(b.subrange(0, 16)),
        service_id: wire::decoded::<protocol::Guid>(b.subrange(16, 32)),
        status: wire::decoded::<i32>(b.subrange(32, 36)),
    };
    assert(v.wire() =~= b);
    wire::lemma_decoded(v);
}

/// Law: any 2 bytes are read as a [`protocol::PacketType`].
pub proof fn law_packet_type_decodes(b: Seq<u8>)
    requires
        b.len() == 2,
    ensures
        wire::decoded::<protocol::PacketType>(b).wire() == b,
{
    law_u16_decodes(b.subrange(0, 2));
    let v = protocol::PacketType(wire::decoded::<u16>(b.subrange(0, 2)));
    assert(v.wire() =~= b);
    wire::lemma_decoded(v);
}

/// Law: any 2 bytes are read as a [`protocol::PacketFlags`].
pub proof fn law_packet_flags_decodes(b: Seq<u8>)
    requires
        b.len() == 2,
    ensures
        wire::decoded::<protocol::PacketFlags>(b).wire() == b,
{
    law_u16_decodes(b.subrange(0, 2));
    let v = protocol::PacketFlags(wire::decoded::<u16>(b.subrange(0, 2)));
    assert(v.wire() =~= b);
    wire::lemma_decoded(v);
}

/// Law: any 16 bytes are read as a [`protocol::PacketDescriptor`].
pub proof fn law_packet_descriptor_decodes(b: Seq<u8>)
    requires
        b.len() == 16,
    ensures
        wire::decoded::<protocol::PacketDescriptor>(b).wire() == b,
{
    law_packet_type_decodes(b.subrange(0, 2));
    law_u16_decodes(b.subrange(2, 4));
    law_u16_decodes(b.subrange(4, 6));
    law_packet_flags_decodes(b.subrange(6, 8));
    law_u64_decodes(b.subrange(8, 16));
    let v = protocol::PacketDescriptor {
        packet_type: wire::decoded::<protocol::PacketType>(b.subrange(0, 2)),
        data_offset8: wire::decoded::<u16>(b.subrange(2, 4)),
        length8: wire::decoded::<u16>(b.subrange(4, 6)),
        flags: wire::decoded::<protocol::PacketFlags>(b.subrange(6, 8)),
        transaction_id: wire::decoded::<u64>(b.subrange(8, 16)),
    };
    assert(v.wire() =~= b);
    wire::lemma_decoded(v);
}

/// Law: any 8 bytes are read as a [`protocol::GpaRange`].
pub proof fn law_gpa_range_decodes(b: Seq<u8>)
    requires
        b.len() == 8,
    ensures
        wire::decoded::<protocol::GpaRange>(b).wire() == b,
{
    law_u32_decodes(b.subrange(0, 4));
    law_u32_decodes(b.subrange(4, 8));
    let v = protocol::GpaRange {
        byte_count: wire::decoded::<u32>(b.subrange(0, 4)),
        byte_offset: wire::decoded::<u32>(b.subrange(4, 8)),
    };
    assert(v.wire() =~= b);
    wire::lemma_decoded(v);
}

/// Law: any 8 bytes are read as a [`protocol::GpaDirectHeader`].
pub proof fn law_gpa_direct_header_decodes(b: Seq<u8>)
    requires
        b.len() == 8,
    ensures
        wire::decoded::<protocol::GpaDirectHeader>(b).wire() == b,
{
    law_u32_decodes(b.subrange(0, 4));
    law_u32_decodes(b.subrange(4, 8));
    let v = protocol::GpaDirectHeader {
        reserved: wire::decoded::<u32>(b.subrange(0, 4)),
        range_count: wire::decoded::<u32>(b.subrange(4, 8)),
    };
    assert(v.wire() =~= b);
    wire::lemma_decoded(v);
}

/// Law: any 8 bytes are read as a [`protocol::TransferPageHeader`].
pub proof fn law_transfer_page_header_decodes(b: Seq<u8>)
    requires
        b.len() == 8,
    ensures
        wire::decoded::<protocol::TransferPageHeader>(b).wire() == b,
{
    law_u16_decodes(b.subrange(0, 2));
    law_u16_decodes(b.subrange(2, 4));
    law_u32_decodes(b.subrange(4, 8));
    let v = protocol::TransferPageHeader {
        transfer_page_set_id: wire::decoded::<u16>(b.subrange(0, 2)),
        reserved: wire::decoded::<u16>(b.subrange(2, 4)),
        range_count: wire::decoded::<u32>(b.subrange(4, 8)),
    };
    assert(v.wire() =~= b);
    wire::lemma_decoded(v);
}

/// Law: any 8 bytes are read as a [`protocol::TransferPageRange`].
pub proof fn law_transfer_page_range_decodes(b: Seq<u8>)
    requires
        b.len() == 8,
    ensures
        wire::decoded::<protocol::TransferPageRange>(b).wire() == b,
{
    law_u32_decodes(b.subrange(0, 4));
    law_u32_decodes(b.subrange(4, 8));
    let v = protocol::TransferPageRange {
        byte_count: wire::decoded::<u32>(b.subrange(0, 4)),
        byte_offset: wire::decoded::<u32>(b.subrange(4, 8)),
    };
    assert(v.wire() =~= b);
    wire::lemma_decoded(v);
}

/// Law: any 4 bytes are read as a [`hv::HvRegisterName`].
pub proof fn law_hv_hv_register_name_decodes(b: Seq<u8>)
    requires
        b.len() == 4,
    ensures
        wire::decoded::<hv::HvRegisterName>(b).wire() == b,
{
    law_u32_decodes(b.subrange(0, 4));
    let v = hv::HvRegisterName(wire::decoded::<u32>(b.subrange(0, 4)));
    assert(v.wire() =~= b);
    wire::lemma_decoded(v);
}

/// Law: any 4 bytes are read as a [`hv::HvMessageType`].
pub proof fn law_hv_hv_message_type_decodes(b: Seq<u8>)
    requires
        b.len() == 4,
    ensures
        wire::decoded::<hv::HvMessageType>(b).wire() == b,
{
    law_u32_decodes(b.subrange(0, 4));
    let v = hv::HvMessageType(wire::decoded::<u32>(b.subrange(0, 4)));
    assert(v.wire() =~= b);
    wire::lemma_decoded(v);
}

/// Law: any 1 bytes are read as a [`hv::HvInputVtl`].
pub proof fn law_hv_hv_input_vtl_decodes(b: Seq<u8>)
    requires
        b.len() == 1,
    ensures
        wire::decoded::<hv::HvInputVtl>(b).wire() == b,
{
    law_u8_decodes(b.subrange(0, 1));
    let v = hv::HvInputVtl(wire::decoded::<u8>(b.subrange(0, 1)));
    assert(v.wire() =~= b);
    wire::lemma_decoded(v);
}

/// Law: any 16 bytes are read as a [`hv::HvRegisterValue`].
pub proof fn law_hv_hv_register_value_decodes(b: Seq<u8>)
    requires
        b.len() == 16,
    ensures
        wire::decoded::<hv::HvRegisterValue>(b).wire() == b,
{
    law_u64_decodes(b.subrange(0, 8));
    law_u64_decodes(b.subrange(8, 16));
    let v = hv::HvRegisterValue {
        low: wire::decoded::<u64>(b.subrange(0, 8)),
        high: wire::decoded::<u64>(b.subrange(8, 16)),
    };
    assert(v.wire() =~= b);
    wire::lemma_decoded(v);
}

/// Law: any 32 bytes are read as a [`hv::HvRegisterAssoc`].
pub proof fn law_hv_hv_register_assoc_decodes(b: Seq<u8>)
    requires
        b.len() == 32,
    ensures
        wire::decoded::<hv::HvRegisterAssoc>(b).wire() == b,
{
    law_hv_hv_register_name_decodes(b.subrange(0, 4));
    law_bytes_decode::<12>(b.subrange(4, 16));
    law_hv_hv_register_value_decodes(b.subrange(16, 32));
    let v = hv::HvRegisterAssoc {
        name: wire::decoded::<hv::HvRegisterName>(b.subrange(0, 4)),
        pad: wire::decoded::<[u8; 12]>(b.subrange(4, 16)),
        value: wire::decoded::<hv::HvRegisterValue>(b.subrange(16, 32)),
    };
    assert(v.wire() =~= b);
    wire::lemma_decoded(v);
}

/// Law: any 16 bytes are read as a [`hv::GetSetVpRegisters`].
pub proof fn law_hv_get_set_vp_registers_decodes(b: Seq<u8>)
    requires
        b.len() == 16,
    ensures
        wire::decoded::<hv::GetSetVpRegisters>(b).wire() == b,
{
    law_u64_decodes(b.subrange(0, 8));
    law_u32_decodes(b.subrange(8, 12));
    law_hv_hv_input_vtl_decodes(b.subrange(12, 13));
    law_bytes_decode::<3>(b.subrange(13, 16));
    let v = hv::GetSetVpRegisters {
        partition_id: wire::decoded::<u64>(b.subrange(0, 8)),
        vp_index: wire::decoded::<u32>(b.subrange(8, 12)),
        target_vtl: wire::decoded::<hv::HvInputVtl>(b.subrange(12, 13)),
        rsvd: wire::decoded::<[u8; 3]>(b.subrange(13, 16)),
    };
    assert(v.wire() =~= b);
    wire::lemma_decoded(v);
}

/// Law: any 8 bytes are read as a [`hv::SignalEvent`].
pub proof fn law_hv_signal_event_decodes(b: Seq<u8>)
    requires
        b.len() == 8,
    ensures
        wire::decoded::<hv::SignalEvent>(b).wire() == b,
{
    law_u32_decodes(b.subrange(0, 4));
    law_u16_decodes(b.subrange(4, 6));
    law_u16_decodes(b.subrange(6, 8));
    let v = hv::SignalEvent {
        connection_id: wire::decoded::<u32>(b.subrange(0, 4)),
        flag_number: wire::decoded::<u16>(b.subrange(4, 6)),
        rsvd: wire::decoded::<u16>(b.subrange(6, 8)),
    };
    assert(v.wire() =~= b);
    wire::lemma_decoded(v);
}

/// Law: any 4 bytes are read as a [`netvsp::MessageHeader`].
pub proof fn law_nvsp_message_header_decodes(b: Seq<u8>)
    requires
        b.len() == 4,
    ensures
        wire::decoded::<netvsp::MessageHeader>(b).wire() == b,
{
    law_u32_decodes(b.subrange(0, 4));
    let v = netvsp::MessageHeader {
        message_type: wire::decoded::<u32>(b.subrange(0, 4)),
    };
    assert(v.wire() =~= b);
    wire::lemma_decoded(v);
}

/// Law: any 8 bytes are read as a [`netvsp::NvspMsgInit`].
pub proof fn law_nvsp_nvsp_msg_init_decodes(b: Seq<u8>)
    requires
        b.len() == 8,
    ensures
        wire::decoded::<netvsp::NvspMsgInit>(b).wire() == b,
{
    law_u32_decodes(b.subrange(0, 4));
    law_u32_decodes(b.subrange(4, 8));
    let v = netvsp::NvspMsgInit {
        protocol_version: wire::decoded::<u32>(b.subrange(0, 4)),
        protocol_version2: wire::decoded::<u32>(b.subrange(4, 8)),
    };
    assert(v.wire() =~= b);
    wire::lemma_decoded(v);
}

/// Law: any 12 bytes are read as a [`netvsp::NvspMsgInitComplete`].
pub proof fn law_nvsp_nvsp_msg_init_complete_decodes(b: Seq<u8>)
    requires
        b.len() == 12,
    ensures
        wire::decoded::<netvsp::NvspMsgInitComplete>(b).wire() == b,
{
    law_u32_decodes(b.subrange(0, 4));
    law_u32_decodes(b.subrange(4, 8));
    law_u32_decodes(b.subrange(8, 12));
    let v = netvsp::NvspMsgInitComplete {
        deprecated: wire::decoded::<u32>(b.subrange(0, 4)),
        maximum_mdl_chain_length: wire::decoded::<u32>(b.subrange(4, 8)),
        status: wire::decoded::<u32>(b.subrange(8, 12)),
    };
    assert(v.wire() =~= b);
    wire::lemma_decoded(v);
}

/// Law: any 8 bytes are read as a [`netvsp::Nvsp1MsgSendNdisVersion`].
pub proof fn law_nvsp_nvsp1_msg_send_ndis_version_decodes(b: Seq<u8>)
    requires
        b.len() == 8,
    ensures
        wire::decoded::<netvsp::Nvsp1MsgSendNdisVersion>(b).wire() == b,
{
    law_u32_decodes(b.subrange(0, 4));
    law_u32_decodes(b.subrange(4, 8));
    let v = netvsp::Nvsp1MsgSendNdisVersion {
        ndis_major_version: wire::decoded::<u32>(b.subrange(0, 4)),
        ndis_minor_version: wire::decoded::<u32>(b.subrange(4, 8)),
    };
    assert(v.wire() =~= b);
    wire::lemma_decoded(v);
}

/// Law: any 8 bytes are read as a [`netvsp::Nvsp1MsgSendBuffer`].
pub proof fn law_nvsp_nvsp1_msg_send_buffer_decodes(b: Seq<u8>)
    requires
        b.len() == 8,
    ensures
        wire::decoded::<netvsp::Nvsp1MsgSendBuffer>(b).wire() == b,
{
    law_u32_decodes(b.subrange(0, 4));
    law_u16_decodes(b.subrange(4, 6));
    law_u16_decodes(b.subrange(6, 8));
    let v = netvsp::Nvsp1MsgSendBuffer {
        gpadl_handle: wire::decoded::<u32>(b.subrange(0, 4)),
        id: wire::decoded::<u16>(b.subrange(4, 6)),
        pad: wire::decoded::<u16>(b.subrange(6, 8)),
    };
    assert(v.wire() =~= b);
    wire::lemma_decoded(v);
}

/// Law: any 16 bytes are read as a [`netvsp::Nvsp1ReceiveBufferSection`].
pub proof fn law_nvsp_nvsp1_receive_buffer_section_decodes(b: Seq<u8>)
    requires
        b.len() == 16,
    ensures
        wire::decoded::<netvsp::Nvsp1ReceiveBufferSection>(b).wire() == b,
{
    law_u32_decodes(b.subrange(0, 4));
    law_u32_decodes(b.subrange(4, 8));
    law_u32_decodes(b.subrange(8, 12));
    law_u32_decodes(b.subrange(12, 16));
    let v = netvsp::Nvsp1ReceiveBufferSection {
        offset: wire::decoded::<u32>(b.subrange(0, 4)),
        sub_alloc_size: wire::decoded::<u32>(b.subrange(4, 8)),
        num_sub_allocs: wire::decoded::<u32>(b.subrange(8, 12)),
        end_offset: wire::decoded::<u32>(b.subrange(12, 16)),
    };
    assert(v.wire() =~= b);
    wire::lemma_decoded(v);
}

/// Law: any 24 bytes are read as a [`netvsp::Nvsp1MsgSendRecvBufComplete`].
pub proof fn law_nvsp_nvsp1_msg_send_recv_buf_complete_decodes(b: Seq<u8>)
    requires
        b.len() == 24,
    ensures
        wire::decoded::<netvsp::Nvsp1MsgSendRecvBufComplete>(b).wire() == b,
{
    law_u32_decodes(b.subrange(0, 4));
    law_u32_decodes(b.subrange(4, 8));
    law_sections_decode(b.subrange(8, 24));
    let v = netvsp::Nvsp1MsgSendRecvBufComplete {
        status: wire::decoded::<u32>(b.subrange(0, 4)),
        num_sections: wire::decoded::<u32>(b.subrange(4, 8)),
        sections: wire::decoded::<[netvsp::Nvsp1ReceiveBufferSection; 1]>(b.subrange(8, 24)),
    };
    assert(v.wire() =~= b);
    wire::lemma_decoded(v);
}

/// Law: any 4 bytes are read as a [`netvsp::Nvsp1MsgRevokeRecvBuf`].
pub proof fn law_nvsp_nvsp1_msg_revoke_recv_buf_decodes(b: Seq<u8>)
    requires
        b.len() == 4,
    ensures
        wire::decoded::<netvsp::Nvsp1MsgRevokeRecvBuf>(b).wire() == b,
{
    law_u16_decodes(b.subrange(0, 2));
    law_u16_decodes(b.subrange(2, 4));
    let v = netvsp::Nvsp1MsgRevokeRecvBuf {
        id: wire::decoded::<u16>(b.subrange(0, 2)),
        pad: wire::decoded::<u16>(b.subrange(2, 4)),
    };
    assert(v.wire() =~= b);
    wire::lemma_decoded(v);
}

/// Law: any 8 bytes are read as a [`netvsp::Nvsp1MsgSendSendBufComplete`].
pub proof fn law_nvsp_nvsp1_msg_send_send_buf_complete_decodes(b: Seq<u8>)
    requires
        b.len() == 8,
    ensures
        wire::decoded::<netvsp::Nvsp1MsgSendSendBufComplete>(b).wire() == b,
{
    law_u32_decodes(b.subrange(0, 4));
    law_u32_decodes(b.subrange(4, 8));
    let v = netvsp::Nvsp1MsgSendSendBufComplete {
        status: wire::decoded::<u32>(b.subrange(0, 4)),
        section_size: wire::decoded::<u32>(b.subrange(4, 8)),
    };
    assert(v.wire() =~= b);
    wire::lemma_decoded(v);
}

/// Law: any 12 bytes are read as a [`netvsp::Nvsp1MsgSendRndisPacket`].
pub proof fn law_nvsp_nvsp1_msg_send_rndis_packet_decodes(b: Seq<u8>)
    requires
        b.len() == 12,
    ensures
        wire::decoded::<netvsp::Nvsp1MsgSendRndisPacket>(b).wire() == b,
{
    law_u32_decodes(b.subrange(0, 4));
    law_u32_decodes(b.subrange(4, 8));
    law_u32_decodes(b.subrange(8, 12));
    let v = netvsp::Nvsp1MsgSendRndisPacket {
        channel_type: wire::decoded::<u32>(b.subrange(0, 4)),
        send_buf_section_index: wire::decoded::<u32>(b.subrange(4, 8)),
        send_buf_section_size: wire::decoded::<u32>(b.subrange(8, 12)),
    };
    assert(v.wire() =~= b);
    wire::lemma_decoded(v);
}

/// Law: any 4 bytes are read as a [`netvsp::Nvsp1MsgSendRndisPacketComplete`].
pub proof fn law_nvsp_nvsp1_msg_send_rndis_packet_complete_decodes(b: Seq<u8>)
    requires
        b.len() == 4,
    ensures
        wire::decoded::<netvsp::Nvsp1MsgSendRndisPacketComplete>(b).wire() == b,
{
    law_u32_decodes(b.subrange(0, 4));
    let v = netvsp::Nvsp1MsgSendRndisPacketComplete {
        status: wire::decoded::<u32>(b.subrange(0, 4)),
    };
    assert(v.wire() =~= b);
    wire::lemma_decoded(v);
}

/// Law: any 8 bytes are read as a [`netvsp::NdisCapabilities`].
pub proof fn law_nvsp_ndis_capabilities_decodes(b: Seq<u8>)
    requires
        b.len() == 8,
    ensures
        wire::decoded::<netvsp::NdisCapabilities>(b).wire() == b,
{
    law_u64_decodes(b.subrange(0, 8));
    let v = netvsp::NdisCapabilities(wire::decoded::<u64>(b.subrange(0, 8)));
    assert(v.wire() =~= b);
    wire::lemma_decoded(v);
}

/// Law: any 16 bytes are read as a [`netvsp::Nvsp2MsgSendNdisConfig`].
pub proof fn law_nvsp_nvsp2_msg_send_ndis_config_decodes(b: Seq<u8>)
    requires
        b.len() == 16,
    ensures
        wire::decoded::<netvsp::Nvsp2MsgSendNdisConfig>(b).wire() == b,
{
    law_u32_decodes(b.subrange(0, 4));
    law_u32_decodes(b.subrange(4, 8));
    law_u64_decodes(b.subrange(8, 16));
    let v = netvsp::Nvsp2MsgSendNdisConfig {
        mtu: wire::decoded::<u32>(b.subrange(0, 4)),
        reserved: wire::decoded::<u32>(b.subrange(4, 8)),
        capabilities: wire::decoded::<u64>(b.subrange(8, 16)),
    };
    assert(v.wire() =~= b);
    wire::lemma_decoded(v);
}

/// Law: any 4 bytes are read as a [`keyboard::MessageHeader`].
pub proof fn law_keyboard_message_header_decodes(b: Seq<u8>)
    requires
        b.len() == 4,
    ensures
        wire::decoded::<keyboard::MessageHeader>(b).wire() == b,
{
    law_u32_decodes(b.subrange(0, 4));
    let v = keyboard::MessageHeader {
        message_type: wire::decoded::<u32>(b.subrange(0, 4)),
    };
    assert(v.wire() =~= b);
    wire::lemma_decoded(v);
}

/// Law: any 4 bytes are read as a [`keyboard::MessageProtocolRequest`].
pub proof fn law_keyboard_message_protocol_request_decodes(b: Seq<u8>)
    requires
        b.len() == 4,
    ensures
        wire::decoded::<keyboard::MessageProtocolRequest>(b).wire() == b,
{
    law_u32_decodes(b.subrange(0, 4));
    let v = keyboard::MessageProtocolRequest {
        version: wire::decoded::<u32>(b.subrange(0, 4)),
    };
    assert(v.wire() =~= b);
    wire::lemma_decoded(v);
}

/// Law: any 4 bytes are read as a [`keyboard::MessageProtocolResponse`].
pub proof fn law_keyboard_message_protocol_response_decodes(b: Seq<u8>)
    requires
        b.len() == 4,
    ensures
        wire::decoded::<keyboard::MessageProtocolResponse>(b).wire() == b,
{
    law_u32_decodes(b.subrange(0, 4));
    let v = keyboard::MessageProtocolResponse {
        accepted: wire::decoded::<u32>(b.subrange(0, 4)),
    };
    assert(v.wire() =~= b);
    wire::lemma_decoded(v);
}

/// Law: any 8 bytes are read as a [`keyboard::MessageKeystroke`].
pub proof fn law_keyboard_message_keystroke_decodes(b: Seq<u8>)
    requires
        b.len() == 8,
    ensures
        wire::decoded::<keyboard::MessageKeystroke>(b).wire() == b,
{
    law_u16_decodes(b.subrange(0, 2));
    law_u16_decodes(b.subrange(2, 4));
    law_u32_decodes(b.subrange(4, 8));
    let v = keyboard::MessageKeystroke {
        make_code: wire::decoded::<u16>(b.subrange(0, 2)),
        padding: wire::decoded::<u16>(b.subrange(2, 4)),
        flags: wire::decoded::<u32>(b.subrange(4, 8)),
    };
    assert(v.wire() =~= b);
    wire::lemma_decoded(v);
}

/// Law: any 4 bytes are read as a [`keyboard::MessageLedIndicatorsState`].
pub proof fn law_keyboard_message_led_indicators_state_decodes(b: Seq<u8>)
    requires
        b.len() == 4,
    ensures
        wire::decoded::<keyboard::MessageLedIndicatorsState>(b).wire() == b,
{
    law_u16_decodes(b.subrange(0, 2));
    law_u16_decodes(b.subrange(2, 4));
    let v = keyboard::MessageLedIndicatorsState {
        led_flags: wire::decoded::<u16>(b.subrange(0, 2)),
        padding: wire::decoded::<u16>(b.subrange(2, 4)),
    };
    assert(v.wire() =~= b);
    wire::lemma_decoded(v);
}

/// Law: any 8 bytes are read as a [`packet::Footer`].
pub proof fn law_packet_footer_decodes(b: Seq<u8>)
    requires
        b.len() == 8,
    ensures
        wire::decoded::<packet::Footer>(b).wire() == b,
{
    law_u32_decodes(b.subrange(0, 4));
    law_u32_decodes(b.subrange(4, 8));
    let v = packet::Footer {
        reserved: wire::decoded::<u32>(b.subrange(0, 4)),
        offset: wire::decoded::<u32>(b.subrange(4, 8)),
    };
    assert(v.wire() =~= b);
    wire::lemma_decoded(v);
}

} // verus!
