//! Where every field stands on the wire.
//!
//! The laws give each field its distance from the start of the structure, in
//! bytes, and say how the bytes there make up its value. They hold of what
//! is written and of what is read: `b` is any byte string that holds the
//! encoding of `v` from `o` on.
use crate::devices::keyboard;
use crate::devices::netvsp;
use crate::hv;
use crate::packet;
use crate::protocol;
use crate::wire::Wire;
use vstd::prelude::*;

verus! {

/// The number in the two bytes from `i` on, least significant first.
pub open spec fn word16(b: Seq<u8>, i: int) -> int {
    b[i] + 256 * b[i + 1]
}

/// The number in the four bytes from `i` on, least significant first.
pub open spec fn word32(b: Seq<u8>, i: int) -> int {
    b[i] + 256 * b[i + 1] + 65536 * b[i + 2] + 16777216 * b[i + 3]
}

/// The number in the eight bytes from `i` on, least significant first.
pub open spec fn word64(b: Seq<u8>, i: int) -> int {
    word32(b, i) + 0x1_0000_0000 * word32(b, i + 4)
}

/// The signed number in the four bytes from `i` on, in two's complement.
pub open spec fn signed32(b: Seq<u8>, i: int) -> int {
    if word32(b, i) < 0x8000_0000 {
        word32(b, i)
    } else {
        word32(b, i) - 0x1_0000_0000
    }
}

/// Law: a 16-bit integer stands with its least significant byte first.
pub proof fn law_word16(v: u16, b: Seq<u8>, o: int)
    requires
        0 <= o,
        o + 2 <= b.len(),
        b.subrange(o, o + 2) == v.wire(),
    ensures
        word16(b, o) == v,
{
    crate::le::lemma_le16(v, b, o);
    reveal(crate::le::u16_at);
}

/// Law: a 32-bit integer stands with its least significant byte first.
pub proof fn law_word32(v: u32, b: Seq<u8>, o: int)
    requires
        0 <= o,
        o + 4 <= b.len(),
        b.subrange(o, o + 4) == v.wire(),
    ensures
        word32(b, o) == v,
{
    crate::le::lemma_le32(v, b, o);
    reveal(crate::le::u32_at);
}

/// Law: a 64-bit integer stands with its least significant byte first.
pub proof fn law_word64(v: u64, b: Seq<u8>, o: int)
    requires
        0 <= o,
        o + 8 <= b.len(),
        b.subrange(o, o + 8) == v.wire(),
    ensures
        word64(b, o) == v,
{
    crate::le::lemma_le64(v, b, o);
    reveal(crate::le::u64_at);
    reveal(crate::le::u32_at);
}

/// Law: a signed integer stands in two's complement.
pub proof fn law_signed32(v: i32, b: Seq<u8>, o: int)
    requires
        0 <= o,
        o + 4 <= b.len(),
        b.subrange(o, o + 4) == v.wire(),
    ensures
        signed32(b, o) == v,
{
    let u = v as u32;
    law_word32(u, b, o);
    assert(u == v || u == v + 0x1_0000_0000) by (bit_vector)
        requires
            u == v as u32,
    ;
    assert((u < 0x8000_0000) == (v >= 0)) by (bit_vector)
        requires
            u == v as u32,
    ;
}

/// Law: where the fields of [`protocol::Guid`] stand.
pub proof fn law_guid_layout(v: protocol::Guid, b: Seq<u8>, o: int)
    requires
        0 <= o,
        o + 16 <= b.len(),
        b.subrange(o, o + 16) == v.wire(),
    ensures
        <protocol::Guid as Wire>::wire_len() == 16,
        word32(b, o) == v.data1,
        word16(b, o + 4) == v.data2,
        word16(b, o + 6) == v.data3,
        forall|i: int| 0 <= i < 8 ==> #[trigger] v.data4@[i] == b[o + 8 + i],
{
    v.data1.lemma_wire_len();
    v.data2.lemma_wire_len();
    v.data3.lemma_wire_len();
    v.data4.lemma_wire_len();
    let w = v.wire();
    assert(w =~= b.subrange(o, o + 16));
    assert(v.data1.wire() =~= w.subrange(0, 4));
    assert(b.subrange(o, o + 4) =~= w.subrange(0, 4));
    law_word32(v.data1, b, o);
    assert(v.data2.wire() =~= w.subrange(4, 6));
    assert(b.subrange(o + 4, o + 6) =~= w.subrange(4, 6));
    law_word16(v.data2, b, o + 4);
    assert(v.data3.wire() =~= w.subrange(6, 8));
    assert(b.subrange(o + 6, o + 8) =~= w.subrange(6, 8));
    law_word16(v.data3, b, o + 6);
    assert(v.data4.wire() =~= w.subrange(8, 16));
    assert(b.subrange(o + 8, o + 16) =~= w.subrange(8, 16));
    assert forall|i: int| 0 <= i < 8 implies #[trigger] v.data4@[i] == b[o + 8 + i] by {
        assert(b[o + 8 + i] == w[8 + i]);
        assert(v.data4.wire()[i] == w[8 + i]);
    }
}

/// Law: where the fields of [`protocol::MessageType`] stand.
pub proof fn law_message_type_layout(v: protocol::MessageType, b: Seq<u8>, o: int)
    requires
        0 <= o,
        o + 4 <= b.len(),
        b.subrange(o, o + 4) == v.wire(),
    ensures
        <protocol::MessageType as Wire>::wire_len() == 4,
        word32(b, o) == v.0,
{
    v.0.lemma_wire_len();
    let w = v.wire();
    assert(w =~= b.subrange(o, o + 4));
    assert(v.0.wire() =~= w.subrange(0, 4));
    assert(b.subrange(o, o + 4) =~= w.subrange(0, 4));
    law_word32(v.0, b, o);
}

/// Law: where the fields of [`protocol::MessageHeader`] stand.
pub proof fn law_message_header_layout(v: protocol::MessageHeader, b: Seq<u8>, o: int)
    requires
        0 <= o,
        o + 8 <= b.len(),
        b.subrange(o, o + 8) == v.wire(),
    ensures
        <protocol::MessageHeader as Wire>::wire_len() == 8,
        word32(b, o) == v.message_type.0,
        word32(b, o + 4) == v.padding,
{
    v.message_type.lemma_wire_len();
    v.padding.lemma_wire_len();
    let w = v.wire();
    assert(w =~= b.subrange(o, o + 8));
    assert(v.message_type.wire() =~= w.subrange(0, 4));
    assert(b.subrange(o, o + 4) =~= w.subrange(0, 4));
    law_message_type_layout(v.message_type, b, o);
    assert(v.padding.wire() =~= w.subrange(4, 8));
    assert(b.subrange(o + 4, o + 8) =~= w.subrange(4, 8));
    law_word32(v.padding, b, o + 4);
}

/// Law: where the fields of [`protocol::FeatureFlags`] stand.
pub proof fn law_feature_flags_layout(v: protocol::FeatureFlags, b: Seq<u8>, o: int)
    requires
        0 <= o,
        o + 4 <= b.len(),
        b.subrange(o, o + 4) == v.wire(),
    ensures
        <protocol::FeatureFlags as Wire>::wire_len() == 4,
        word32(b, o) == v.0,
{
    v.0.lemma_wire_len();
    let w = v.wire();
    assert(w =~= b.subrange(o, o + 4));
    assert(v.0.wire() =~= w.subrange(0, 4));
    assert(b.subrange(o, o + 4) =~= w.subrange(0, 4));
    law_word32(v.0, b, o);
}

/// Law: where the fields of [`protocol::ChannelId`] stand.
pub proof fn law_channel_id_layout(v: protocol::ChannelId, b: Seq<u8>, o: int)
    requires
        0 <= o,
        o + 4 <= b.len(),
        b.subrange(o, o + 4) == v.wire(),
    ensures
        <protocol::ChannelId as Wire>::wire_len() == 4,
        word32(b, o) == v.0,
{
    v.0.lemma_wire_len();
    let w = v.wire();
    assert(w =~= b.subrange(o, o + 4));
    assert(v.0.wire() =~= w.subrange(0, 4));
    assert(b.subrange(o, o + 4) =~= w.subrange(0, 4));
    law_word32(v.0, b, o);
}

/// Law: where the fields of [`protocol::GpadlId`] stand.
pub proof fn law_gpadl_id_layout(v: protocol::GpadlId, b: Seq<u8>, o: int)
    requires
        0 <= o,
        o + 4 <= b.len(),
        b.subrange(o, o + 4) == v.wire(),
    ensures
        <protocol::GpadlId as Wire>::wire_len() == 4,
        word32(b, o) == v.0,
{
    v.0.lemma_wire_len();
    let w = v.wire();
    assert(w =~= b.subrange(o, o + 4));
    assert(v.0.wire() =~= w.subrange(0, 4));
    assert(b.subrange(o, o + 4) =~= w.subrange(0, 4));
    law_word32(v.0, b, o);
}

/// Law: where the fields of [`protocol::InitiateContact`] stand.
pub proof fn law_initiate_contact_layout(v: protocol::InitiateContact, b: Seq<u8>, o: int)
    requires
        0 <= o,
        o + 32 <= b.len(),
        b.subrange(o, o + 32) == v.wire(),
    ensures
        <protocol::InitiateContact as Wire>::wire_len() == 32,
        word32(b, o) == v.version_requested,
        word32(b, o + 4) == v.target_message_vp,
        word64(b, o + 8) == v.interrupt_page_or_target_info,
        word64(b, o + 16) == v.parent_to_child_monitor_page_gpa,
        word64(b, o + 24) == v.child_to_parent_monitor_page_gpa,
{
    v.version_requested.lemma_wire_len();
    v.target_message_vp.lemma_wire_len();
    v.interrupt_page_or_target_info.lemma_wire_len();
    v.parent_to_child_monitor_page_gpa.lemma_wire_len();
    v.child_to_parent_monitor_page_gpa.lemma_wire_len();
    let w = v.wire();
    assert(w =~= b.subrange(o, o + 32));
    assert(v.version_requested.wire() =~= w.subrange(0, 4));
    assert(b.subrange(o, o + 4) =~= w.subrange(0, 4));
    law_word32(v.version_requested, b, o);
    assert(v.target_message_vp.wire() =~= w.subrange(4, 8));
    assert(b.subrange(o + 4, o + 8) =~= w.subrange(4, 8));
    law_word32(v.target_message_vp, b, o + 4);
    assert(v.interrupt_page_or_target_info.wire() =~= w.subrange(8, 16));
    assert(b.subrange(o + 8, o + 16) =~= w.subrange(8, 16));
    law_word64(v.interrupt_page_or_target_info, b, o + 8);
    assert(v.parent_to_child_monitor_page_gpa.wire() =~= w.subrange(16, 24));
    assert(b.subrange(o + 16, o + 24) =~= w.subrange(16, 24));
    law_word64(v.parent_to_child_monitor_page_gpa, b, o + 16);
    assert(v.child_to_parent_monitor_page_gpa.wire() =~= w.subrange(24, 32));
    assert(b.subrange(o + 24, o + 32) =~= w.subrange(24, 32));
    law_word64(v.child_to_parent_monitor_page_gpa, b, o + 24);
}

/// Law: where the fields of [`protocol::InitiateContact2`] stand.
pub proof fn law_initiate_contact2_layout(v: protocol::InitiateContact2, b: Seq<u8>, o: int)
    requires
        0 <= o,
        o + 48 <= b.len(),
        b.subrange(o, o + 48) == v.wire(),
    ensures
        <protocol::InitiateContact2 as Wire>::wire_len() == 48,
        word32(b, o) == v.initiate_contact.version_requested,
        word32(b, o + 4) == v.initiate_contact.target_message_vp,
        word64(b, o + 8) == v.initiate_contact.interrupt_page_or_target_info,
        word64(b, o + 16) == v.initiate_contact.parent_to_child_monitor_page_gpa,
        word64(b, o + 24) == v.initiate_contact.child_to_parent_monitor_page_gpa,
        word32(b, o + 32) == v.client_id.data1,
        word16(b, o + 36) == v.client_id.data2,
        word16(b, o + 38) == v.client_id.data3,
        forall|i: int| 0 <= i < 8 ==> #[trigger] v.client_id.data4@[i] == b[o + 40 + i],
{
    v.initiate_contact.lemma_wire_len();
    v.client_id.lemma_wire_len();
    let w = v.wire();
    assert(w =~= b.subrange(o, o + 48));
    assert(v.initiate_contact.wire() =~= w.subrange(0, 32));
    assert(b.subrange(o, o + 32) =~= w.subrange(0, 32));
    law_initiate_contact_layout(v.initiate_contact, b, o);
    assert(v.client_id.wire() =~= w.subrange(32, 48));
    assert(b.subrange(o + 32, o + 48) =~= w.subrange(32, 48));
    law_guid_layout(v.client_id, b, o + 32);
}

/// Law: where the fields of [`protocol::ConnectionState`] stand.
pub proof fn law_connection_state_layout(v: protocol::ConnectionState, b: Seq<u8>, o: int)
    requires
        0 <= o,
        o + 1 <= b.len(),
        b.subrange(o, o + 1) == v.wire(),
    ensures
        <protocol::ConnectionState as Wire>::wire_len() == 1,
        b[o] == v.0,
{
    v.0.lemma_wire_len();
    let w = v.wire();
    assert(w =~= b.subrange(o, o + 1));
    assert(v.0.wire() =~= w.subrange(0, 1));
    assert(b.subrange(o, o + 1) =~= w.subrange(0, 1));
    assert(w[0] == v.0.wire()[0]);
    assert(b[o] == w[0]);
}

/// Law: where the fields of [`protocol::VersionResponse`] stand.
pub proof fn law_version_response_layout(v: protocol::VersionResponse, b: Seq<u8>, o: int)
    requires
        0 <= o,
        o + 8 <= b.len(),
        b.subrange(o, o + 8) == v.wire(),
    ensures
        <protocol::VersionResponse as Wire>::wire_len() == 8,
        b[o] == v.version_supported,
        b[o + 1] == v.connection_state.0,
        word16(b, o + 2) == v.padding,
        word32(b, o + 4) == v.selected_version_or_connection_id,
{
    v.version_supported.lemma_wire_len();
    v.connection_state.lemma_wire_len();
    v.padding.lemma_wire_len();
    v.selected_version_or_connection_id.lemma_wire_len();
    let w = v.wire();
    assert(w =~= b.subrange(o, o + 8));
    assert(v.version_supported.wire() =~= w.subrange(0, 1));
    assert(b.subrange(o, o + 1) =~= w.subrange(0, 1));
    assert(w[0] == v.version_supported.wire()[0]);
    assert(b[o] == w[0]);
    assert(v.connection_state.wire() =~= w.subrange(1, 2));
    assert(b.subrange(o + 1, o + 2) =~= w.subrange(1, 2));
    law_connection_state_layout(v.connection_state, b, o + 1);
    assert(v.padding.wire() =~= w.subrange(2, 4));
    assert(b.subrange(o + 2, o + 4) =~= w.subrange(2, 4));
    law_word16(v.padding, b, o + 2);
    assert(v.selected_version_or_connection_id.wire() =~= w.subrange(4, 8));
    assert(b.subrange(o + 4, o + 8) =~= w.subrange(4, 8));
    law_word32(v.selected_version_or_connection_id, b, o + 4);
}

/// Law: where the fields of [`protocol::VersionResponse2`] stand.
pub proof fn law_version_response2_layout(v: protocol::VersionResponse2, b: Seq<u8>, o: int)
    requires
        0 <= o,
        o + 12 <= b.len(),
        b.subrange(o, o + 12) == v.wire(),
    ensures
        <protocol::VersionResponse2 as Wire>::wire_len() == 12,
        b[o] == v.version_response.version_supported,
        b[o + 1] == v.version_response.connection_state.0,
        word16(b, o + 2) == v.version_response.padding,
        word32(b, o + 4) == v.version_response.selected_version_or_connection_id,
        word32(b, o + 8) == v.supported_features,
{
    v.version_response.lemma_wire_len();
    v.supported_features.lemma_wire_len();
    let w = v.wire();
    assert(w =~= b.subrange(o, o + 12));
    assert(v.version_response.wire() =~= w.subrange(0, 8));
    assert(b.subrange(o, o + 8) =~= w.subrange(0, 8));
    law_version_response_layout(v.version_response, b, o);
    assert(v.supported_features.wire() =~= w.subrange(8, 12));
    assert(b.subrange(o + 8, o + 12) =~= w.subrange(8, 12));
    law_word32(v.supported_features, b, o + 8);
}

/// Law: where the fields of [`protocol::VersionResponse3`] stand.
pub proof fn law_version_response3_layout(v: protocol::VersionResponse3, b: Seq<u8>, o: int)
    requires
        0 <= o,
        o + 32 <= b.len(),
        b.subrange(o, o + 32) == v.wire(),
    ensures
        <protocol::VersionResponse3 as Wire>::wire_len() == 32,
        b[o] == v.version_response2.version_response.version_supported,
        b[o + 1] == v.version_response2.version_response.connection_state.0,
        word16(b, o + 2) == v.version_response2.version_response.padding,
        word32(b, o + 4) == v.version_response2.version_response.selected_version_or_connection_id,
        word32(b, o + 8) == v.version_response2.supported_features,
        word32(b, o + 12) == v._padding,
        word64(b, o + 16) == v.parent_to_child_monitor_page_gpa,
        word64(b, o + 24) == v.child_to_parent_monitor_page_gpa,
{
    v.version_response2.lemma_wire_len();
    v._padding.lemma_wire_len();
    v.parent_to_child_monitor_page_gpa.lemma_wire_len();
    v.child_to_parent_monitor_page_gpa.lemma_wire_len();
    let w = v.wire();
    assert(w =~= b.subrange(o, o + 32));
    assert(v.version_response2.wire() =~= w.subrange(0, 12));
    assert(b.subrange(o, o + 12) =~= w.subrange(0, 12));
    law_version_response2_layout(v.version_response2, b, o);
    assert(v._padding.wire() =~= w.subrange(12, 16));
    assert(b.subrange(o + 12, o + 16) =~= w.subrange(12, 16));
    law_word32(v._padding, b, o + 12);
    assert(v.parent_to_child_monitor_page_gpa.wire() =~= w.subrange(16, 24));
    assert(b.subrange(o + 16, o + 24) =~= w.subrange(16, 24));
    law_word64(v.parent_to_child_monitor_page_gpa, b, o + 16);
    assert(v.child_to_parent_monitor_page_gpa.wire() =~= w.subrange(24, 32));
    assert(b.subrange(o + 24, o + 32) =~= w.subrange(24, 32));
    law_word64(v.child_to_parent_monitor_page_gpa, b, o + 24);
}

/// Law: where the fields of [`protocol::UserDefinedData`] stand.
pub proof fn law_user_defined_data_layout(v: protocol::UserDefinedData, b: Seq<u8>, o: int)
    requires
        0 <= o,
        o + 120 <= b.len(),
        b.subrange(o, o + 120) == v.wire(),
    ensures
        <protocol::UserDefinedData as Wire>::wire_len() == 120,
        forall|i: int| 0 <= i < 120 ==> #[trigger] v.0@[i] == b[o + i],
{
    v.0.lemma_wire_len();
    let w = v.wire();
    assert(w =~= b.subrange(o, o + 120));
    assert(v.0.wire() =~= w.subrange(0, 120));
    assert(b.subrange(o, o + 120) =~= w.subrange(0, 120));
    assert forall|i: int| 0 <= i < 120 implies #[trigger] v.0@[i] == b[o + i] by {
        assert(b[o + i] == w[i]);
        assert(v.0.wire()[i] == w[i]);
    }
}

/// Law: where the fields of [`protocol::OfferFlags`] stand.
pub proof fn law_offer_flags_layout(v: protocol::OfferFlags, b: Seq<u8>, o: int)
    requires
        0 <= o,
        o + 2 <= b.len(),
        b.subrange(o, o + 2) == v.wire(),
    ensures
        <protocol::OfferFlags as Wire>::wire_len() == 2,
        word16(b, o) == v.0,
{
    v.0.lemma_wire_len();
    let w = v.wire();
    assert(w =~= b.subrange(o, o + 2));
    assert(v.0.wire() =~= w.subrange(0, 2));
    assert(b.subrange(o, o + 2) =~= w.subrange(0, 2));
    law_word16(v.0, b, o);
}

/// Law: where the fields of [`protocol::OfferChannel`] stand.
pub proof fn law_offer_channel_layout(v: protocol::OfferChannel, b: Seq<u8>, o: int)
    requires
        0 <= o,
        o + 188 <= b.len(),
        b.subrange(o, o + 188) == v.wire(),
    ensures
        <protocol::OfferChannel as Wire>::wire_len() == 188,
        word32(b, o) == v.interface_id.data1,
        word16(b, o + 4) == v.interface_id.data2,
        word16(b, o + 6) == v.interface_id.data3,
        forall|i: int| 0 <= i < 8 ==> #[trigger] v.interface_id.data4@[i] == b[o + 8 + i],
        word32(b, o + 16) == v.instance_id.data1,
        word16(b, o + 20) == v.instance_id.data2,
        word16(b, o + 22) == v.instance_id.data3,
        forall|i: int| 0 <= i < 8 ==> #[trigger] v.instance_id.data4@[i] == b[o + 24 + i],
        word32(b, o + 32) == v.rsvd@[0],
        word32(b, o + 36) == v.rsvd@[1],
        word32(b, o + 40) == v.rsvd@[2],
        word32(b, o + 44) == v.rsvd@[3],
        word16(b, o + 48) == v.flags.0,
        word16(b, o + 50) == v.mmio_megabytes,
        forall|i: int| 0 <= i < 120 ==> #[trigger] v.user_defined.0@[i] == b[o + 52 + i],
        word16(b, o + 172) == v.subchannel_index,
        word16(b, o + 174) == v.mmio_megabytes_optional,
        word32(b, o + 176) == v.channel_id.0,
        b[o + 180] == v.monitor_id,
        b[o + 181] == v.monitor_allocated,
        word16(b, o + 182) == v.is_dedicated,
        word32(b, o + 184) == v.connection_id,
{
    v.interface_id.lemma_wire_len();
    v.instance_id.lemma_wire_len();
    v.rsvd.lemma_wire_len();
    v.flags.lemma_wire_len();
    v.mmio_megabytes.lemma_wire_len();
    v.user_defined.lemma_wire_len();
    v.subchannel_index.lemma_wire_len();
    v.mmio_megabytes_optional.lemma_wire_len();
    v.channel_id.lemma_wire_len();
    v.monitor_id.lemma_wire_len();
    v.monitor_allocated.lemma_wire_len();
    v.is_dedicated.lemma_wire_len();
    v.connection_id.lemma_wire_len();
    let w = v.wire();
    assert(w =~= b.subrange(o, o + 188));
    assert(v.interface_id.wire() =~= w.subrange(0, 16));
    assert(b.subrange(o, o + 16) =~= w.subrange(0, 16));
    law_guid_layout(v.interface_id, b, o);
    assert(v.instance_id.wire() =~= w.subrange(16, 32));
    assert(b.subrange(o + 16, o + 32) =~= w.subrange(16, 32));
    law_guid_layout(v.instance_id, b, o + 16);
    assert(v.rsvd.wire() =~= w.subrange(32, 48));
    assert(b.subrange(o + 32, o + 48) =~= w.subrange(32, 48));
    v.rsvd@[0].lemma_wire_len();
    v.rsvd@[1].lemma_wire_len();
    v.rsvd@[2].lemma_wire_len();
    v.rsvd@[3].lemma_wire_len();
    assert(v.rsvd.wire().subrange(0, 4) =~= v.rsvd@[0].wire());
    assert(b.subrange(o + 32, o + 36) =~= v.rsvd.wire().subrange(0, 4));
    law_word32(v.rsvd@[0], b, o + 32);
    assert(v.rsvd.wire().subrange(4, 8) =~= v.rsvd@[1].wire());
    assert(b.subrange(o + 36, o + 40) =~= v.rsvd.wire().subrange(4, 8));
    law_word32(v.rsvd@[1], b, o + 36);
    assert(v.rsvd.wire().subrange(8, 12) =~= v.rsvd@[2].wire());
    assert(b.subrange(o + 40, o + 44) =~= v.rsvd.wire().subrange(8, 12));
    law_word32(v.rsvd@[2], b, o + 40);
    assert(v.rsvd.wire().subrange(12, 16) =~= v.rsvd@[3].wire());
    assert(b.subrange(o + 44, o + 48) =~= v.rsvd.wire().subrange(12, 16));
    law_word32(v.rsvd@[3], b, o + 44);
    assert(v.flags.wire() =~= w.subrange(48, 50));
    assert(b.subrange(o + 48, o + 50) =~= w.subrange(48, 50));
    law_offer_flags_layout(v.flags, b, o + 48);
    assert(v.mmio_megabytes.wire() =~= w.subrange(50, 52));
    assert(b.subrange(o + 50, o + 52) =~= w.subrange(50, 52));
    law_word16(v.mmio_megabytes, b, o + 50);
    assert(v.user_defined.wire() =~= w.subrange(52, 172));
    assert(b.subrange(o + 52, o + 172) =~= w.subrange(52, 172));
    law_user_defined_data_layout(v.user_defined, b, o + 52);
    assert(v.subchannel_index.wire() =~= w.subrange(172, 174));
    assert(b.subrange(o + 172, o + 174) =~= w.subrange(172, 174));
    law_word16(v.subchannel_index, b, o + 172);
    assert(v.mmio_megabytes_optional.wire() =~= w.subrange(174, 176));
    assert(b.subrange(o + 174, o + 176) =~= w.subrange(174, 176));
    law_word16(v.mmio_megabytes_optional, b, o + 174);
    assert(v.channel_id.wire() =~= w.subrange(176, 180));
    assert(b.subrange(o + 176, o + 180) =~= w.subrange(176, 180));
    law_channel_id_layout(v.channel_id, b, o + 176);
    assert(v.monitor_id.wire() =~= w.subrange(180, 181));
    assert(b.subrange(o + 180, o + 181) =~= w.subrange(180, 181));
    assert(w[180] == v.monitor_id.wire()[0]);
    assert(b[o + 180] == w[180]);
    assert(v.monitor_allocated.wire() =~= w.subrange(181, 182));
    assert(b.subrange(o + 181, o + 182) =~= w.subrange(181, 182));
    assert(w[181] == v.monitor_allocated.wire()[0]);
    assert(b[o + 181] == w[181]);
    assert(v.is_dedicated.wire() =~= w.subrange(182, 184));
    assert(b.subrange(o + 182, o + 184) =~= w.subrange(182, 184));
    law_word16(v.is_dedicated, b, o + 182);
    assert(v.connection_id.wire() =~= w.subrange(184, 188));
    assert(b.subrange(o + 184, o + 188) =~= w.subrange(184, 188));
    law_word32(v.connection_id, b, o + 184);
}

/// Law: where the fields of [`protocol::RescindChannelOffer`] stand.
pub proof fn law_rescind_channel_offer_layout(v: protocol::RescindChannelOffer, b: Seq<u8>, o: int)
    requires
        0 <= o,
        o + 4 <= b.len(),
        b.subrange(o, o + 4) == v.wire(),
    ensures
        <protocol::RescindChannelOffer as Wire>::wire_len() == 4,
        word32(b, o) == v.channel_id.0,
{
    v.channel_id.lemma_wire_len();
    let w = v.wire();
    assert(w =~= b.subrange(o, o + 4));
    assert(v.channel_id.wire() =~= w.subrange(0, 4));
    assert(b.subrange(o, o + 4) =~= w.subrange(0, 4));
    law_channel_id_layout(v.channel_id, b, o);
}

/// Law: where the fields of [`protocol::GpadlHeader`] stand.
pub proof fn law_gpadl_header_layout(v: protocol::GpadlHeader, b: Seq<u8>, o: int)
    requires
        0 <= o,
        o + 12 <= b.len(),
        b.subrange(o, o + 12) == v.wire(),
    ensures
        <protocol::GpadlHeader as Wire>::wire_len() == 12,
        word32(b, o) == v.channel_id.0,
        word32(b, o + 4) == v.gpadl_id.0,
        word16(b, o + 8) == v.len,
        word16(b, o + 10) == v.count,
{
    v.channel_id.lemma_wire_len();
    v.gpadl_id.lemma_wire_len();
    v.len.lemma_wire_len();
    v.count.lemma_wire_len();
    let w = v.wire();
    assert(w =~= b.subrange(o, o + 12));
    assert(v.channel_id.wire() =~= w.subrange(0, 4));
    assert(b.subrange(o, o + 4) =~= w.subrange(0, 4));
    law_channel_id_layout(v.channel_id, b, o);
    assert(v.gpadl_id.wire() =~= w.subrange(4, 8));
    assert(b.subrange(o + 4, o + 8) =~= w.subrange(4, 8));
    law_gpadl_id_layout(v.gpadl_id, b, o + 4);
    assert(v.len.wire() =~= w.subrange(8, 10));
    assert(b.subrange(o + 8, o + 10) =~= w.subrange(8, 10));
    law_word16(v.len, b, o + 8);
    assert(v.count.wire() =~= w.subrange(10, 12));
    assert(b.subrange(o + 10, o + 12) =~= w.subrange(10, 12));
    law_word16(v.count, b, o + 10);
}

/// Law: where the fields of [`protocol::GpadlBody`] stand.
pub proof fn law_gpadl_body_layout(v: protocol::GpadlBody, b: Seq<u8>, o: int)
    requires
        0 <= o,
        o + 8 <= b.len(),
        b.subrange(o, o + 8) == v.wire(),
    ensures
        <protocol::GpadlBody as Wire>::wire_len() == 8,
        word32(b, o) == v.rsvd,
        word32(b, o + 4) == v.gpadl_id.0,
{
    v.rsvd.lemma_wire_len();
    v.gpadl_id.lemma_wire_len();
    let w = v.wire();
    assert(w =~= b.subrange(o, o + 8));
    assert(v.rsvd.wire() =~= w.subrange(0, 4));
    assert(b.subrange(o, o + 4) =~= w.subrange(0, 4));
    law_word32(v.rsvd, b, o);
    assert(v.gpadl_id.wire() =~= w.subrange(4, 8));
    assert(b.subrange(o + 4, o + 8) =~= w.subrange(4, 8));
    law_gpadl_id_layout(v.gpadl_id, b, o + 4);
}

/// Law: where the fields of [`protocol::GpadlCreated`] stand.
pub proof fn law_gpadl_created_layout(v: protocol::GpadlCreated, b: Seq<u8>, o: int)
    requires
        0 <= o,
        o + 12 <= b.len(),
        b.subrange(o, o + 12) == v.wire(),
    ensures
        <protocol::GpadlCreated as Wire>::wire_len() == 12,
        word32(b, o) == v.channel_id.0,
        word32(b, o + 4) == v.gpadl_id.0,
        signed32(b, o + 8) == v.status,
{
    v.channel_id.lemma_wire_len();
    v.gpadl_id.lemma_wire_len();
    v.status.lemma_wire_len();
    let w = v.wire();
    assert(w =~= b.subrange(o, o + 12));
    assert(v.channel_id.wire() =~= w.subrange(0, 4));
    assert(b.subrange(o, o + 4) =~= w.subrange(0, 4));
    law_channel_id_layout(v.channel_id, b, o);
    assert(v.gpadl_id.wire() =~= w.subrange(4, 8));
    assert(b.subrange(o + 4, o + 8) =~= w.subrange(4, 8));
    law_gpadl_id_layout(v.gpadl_id, b, o + 4);
    assert(v.status.wire() =~= w.subrange(8, 12));
    assert(b.subrange(o + 8, o + 12) =~= w.subrange(8, 12));
    law_signed32(v.status, b, o + 8);
}

/// Law: where the fields of [`protocol::GpadlTeardown`] stand.
pub proof fn law_gpadl_teardown_layout(v: protocol::GpadlTeardown, b: Seq<u8>, o: int)
    requires
        0 <= o,
        o + 8 <= b.len(),
        b.subrange(o, o + 8) == v.wire(),
    ensures
        <protocol::GpadlTeardown as Wire>::wire_len() == 8,
        word32(b, o) == v.channel_id.0,
        word32(b, o + 4) == v.gpadl_id.0,
{
    v.channel_id.lemma_wire_len();
    v.gpadl_id.lemma_wire_len();
    let w = v.wire();
    assert(w =~= b.subrange(o, o + 8));
    assert(v.channel_id.wire() =~= w.subrange(0, 4));
    assert(b.subrange(o, o + 4) =~= w.subrange(0, 4));
    law_channel_id_layout(v.channel_id, b, o);
    assert(v.gpadl_id.wire() =~= w.subrange(4, 8));
    assert(b.subrange(o + 4, o + 8) =~= w.subrange(4, 8));
    law_gpadl_id_layout(v.gpadl_id, b, o + 4);
}

/// Law: where the fields of [`protocol::GpadlTorndown`] stand.
pub proof fn law_gpadl_torndown_layout(v: protocol::GpadlTorndown, b: Seq<u8>, o: int)
    requires
        0 <= o,
        o + 4 <= b.len(),
        b.subrange(o, o + 4) == v.wire(),
    ensures
        <protocol::GpadlTorndown as Wire>::wire_len() == 4,
        word32(b, o) == v.gpadl_id.0,
{
    v.gpadl_id.lemma_wire_len();
    let w = v.wire();
    assert(w =~= b.subrange(o, o + 4));
    assert(v.gpadl_id.wire() =~= w.subrange(0, 4));
    assert(b.subrange(o, o + 4) =~= w.subrange(0, 4));
    law_gpadl_id_layout(v.gpadl_id, b, o);
}

/// Law: where the fields of [`protocol::OpenChannel`] stand.
pub proof fn law_open_channel_layout(v: protocol::OpenChannel, b: Seq<u8>, o: int)
    requires
        0 <= o,
        o + 140 <= b.len(),
        b.subrange(o, o + 140) == v.wire(),
    ensures
        <protocol::OpenChannel as Wire>::wire_len() == 140,
        word32(b, o) == v.channel_id.0,
        word32(b, o + 4) == v.open_id,
        word32(b, o + 8) == v.ring_buffer_gpadl_id.0,
        word32(b, o + 12) == v.target_vp,
        word32(b, o + 16) == v.downstream_ring_buffer_page_offset,
        forall|i: int| 0 <= i < 120 ==> #[trigger] v.user_data.0@[i] == b[o + 20 + i],
{
    v.channel_id.lemma_wire_len();
    v.open_id.lemma_wire_len();
    v.ring_buffer_gpadl_id.lemma_wire_len();
    v.target_vp.lemma_wire_len();
    v.downstream_ring_buffer_page_offset.lemma_wire_len();
    v.user_data.lemma_wire_len();
    let w = v.wire();
    assert(w =~= b.subrange(o, o + 140));
    assert(v.channel_id.wire() =~= w.subrange(0, 4));
    assert(b.subrange(o, o + 4) =~= w.subrange(0, 4));
    law_channel_id_layout(v.channel_id, b, o);
    assert(v.open_id.wire() =~= w.subrange(4, 8));
    assert(b.subrange(o + 4, o + 8) =~= w.subrange(4, 8));
    law_word32(v.open_id, b, o + 4);
    assert(v.ring_buffer_gpadl_id.wire() =~= w.subrange(8, 12));
    assert(b.subrange(o + 8, o + 12) =~= w.subrange(8, 12));
    law_gpadl_id_layout(v.ring_buffer_gpadl_id, b, o + 8);
    assert(v.target_vp.wire() =~= w.subrange(12, 16));
    assert(b.subrange(o + 12, o + 16) =~= w.subrange(12, 16));
    law_word32(v.target_vp, b, o + 12);
    assert(v.downstream_ring_buffer_page_offset.wire() =~= w.subrange(16, 20));
    assert(b.subrange(o + 16, o + 20) =~= w.subrange(16, 20));
    law_word32(v.downstream_ring_buffer_page_offset, b, o + 16);
    assert(v.user_data.wire() =~= w.subrange(20, 140));
    assert(b.subrange(o + 20, o + 140) =~= w.subrange(20, 140));
    law_user_defined_data_layout(v.user_data, b, o + 20);
}

/// Law: where the fields of [`protocol::OpenChannelFlags`] stand.
pub proof fn law_open_channel_flags_layout(v: protocol::OpenChannelFlags, b: Seq<u8>, o: int)
    requires
        0 <= o,
        o + 2 <= b.len(),
        b.subrange(o, o + 2) == v.wire(),
    ensures
        <protocol::OpenChannelFlags as Wire>::wire_len() == 2,
        word16(b, o) == v.0,
{
    v.0.lemma_wire_len();
    let w = v.wire();
    assert(w =~= b.subrange(o, o + 2));
    assert(v.0.wire() =~= w.subrange(0, 2));
    assert(b.subrange(o, o + 2) =~= w.subrange(0, 2));
    law_word16(v.0, b, o);
}

/// Law: where the fields of [`protocol::OpenChannel2`] stand.
pub proof fn law_open_channel2_layout(v: protocol::OpenChannel2, b: Seq<u8>, o: int)
    requires
        0 <= o,
        o + 148 <= b.len(),
        b.subrange(o, o + 148) == v.wire(),
    ensures
        <protocol::OpenChannel2 as Wire>::wire_len() == 148,
        word32(b, o) == v.open_channel.channel_id.0,
        word32(b, o + 4) == v.open_channel.open_id,
        word32(b, o + 8) == v.open_channel.ring_buffer_gpadl_id.0,
        word32(b, o + 12) == v.open_channel.target_vp,
        word32(b, o + 16) == v.open_channel.downstream_ring_buffer_page_offset,
        forall|i: int| 0 <= i < 120 ==> #[trigger] v.open_channel.user_data.0@[i] == b[o + 20 + i],
        word32(b, o + 140) == v.connection_id,
        word16(b, o + 144) == v.event_flag,
        word16(b, o + 146) == v.flags.0,
{
    v.open_channel.lemma_wire_len();
    v.connection_id.lemma_wire_len();
    v.event_flag.lemma_wire_len();
    v.flags.lemma_wire_len();
    let w = v.wire();
    assert(w =~= b.subrange(o, o + 148));
    assert(v.open_channel.wire() =~= w.subrange(0, 140));
    assert(b.subrange(o, o + 140) =~= w.subrange(0, 140));
    law_open_channel_layout(v.open_channel, b, o);
    assert(v.connection_id.wire() =~= w.subrange(140, 144));
    assert(b.subrange(o + 140, o + 144) =~= w.subrange(140, 144));
    law_word32(v.connection_id, b, o + 140);
    assert(v.event_flag.wire() =~= w.subrange(144, 146));
    assert(b.subrange(o + 144, o + 146) =~= w.subrange(144, 146));
    law_word16(v.event_flag, b, o + 144);
    assert(v.flags.wire() =~= w.subrange(146, 148));
    assert(b.subrange(o + 146, o + 148) =~= w.subrange(146, 148));
    law_open_channel_flags_layout(v.flags, b, o + 146);
}

/// Law: where the fields of [`protocol::OpenResult`] stand.
pub proof fn law_open_result_layout(v: protocol::OpenResult, b: Seq<u8>, o: int)
    requires
        0 <= o,
        o + 12 <= b.len(),
        b.subrange(o, o + 12) == v.wire(),
    ensures
        <protocol::OpenResult as Wire>::wire_len() == 12,
        word32(b, o) == v.channel_id.0,
        word32(b, o + 4) == v.open_id,
        word32(b, o + 8) == v.status,
{
    v.channel_id.lemma_wire_len();
    v.open_id.lemma_wire_len();
    v.status.lemma_wire_len();
    let w = v.wire();
    assert(w =~= b.subrange(o, o + 12));
    assert(v.channel_id.wire() =~= w.subrange(0, 4));
    assert(b.subrange(o, o + 4) =~= w.subrange(0, 4));
    law_channel_id_layout(v.channel_id, b, o);
    assert(v.open_id.wire() =~= w.subrange(4, 8));
    assert(b.subrange(o + 4, o + 8) =~= w.subrange(4, 8));
    law_word32(v.open_id, b, o + 4);
    assert(v.status.wire() =~= w.subrange(8, 12));
    assert(b.subrange(o + 8, o + 12) =~= w.subrange(8, 12));
    law_word32(v.status, b, o + 8);
}

/// Law: where the fields of [`protocol::CloseChannel`] stand.
pub proof fn law_close_channel_layout(v: protocol::CloseChannel, b: Seq<u8>, o: int)
    requires
        0 <= o,
        o + 4 <= b.len(),
        b.subrange(o, o + 4) == v.wire(),
    ensures
        <protocol::CloseChannel as Wire>::wire_len() == 4,
        word32(b, o) == v.channel_id.0,
{
    v.channel_id.lemma_wire_len();
    let w = v.wire();
    assert(w =~= b.subrange(o, o + 4));
    assert(v.channel_id.wire() =~= w.subrange(0, 4));
    assert(b.subrange(o, o + 4) =~= w.subrange(0, 4));
    law_channel_id_layout(v.channel_id, b, o);
}

/// Law: where the fields of [`protocol::RelIdReleased`] stand.
pub proof fn law_rel_id_released_layout(v: protocol::RelIdReleased, b: Seq<u8>, o: int)
    requires
        0 <= o,
        o + 4 <= b.len(),
        b.subrange(o, o + 4) == v.wire(),
    ensures
        <protocol::RelIdReleased as Wire>::wire_len() == 4,
        word32(b, o) == v.channel_id.0,
{
    v.channel_id.lemma_wire_len();
    let w = v.wire();
    assert(w =~= b.subrange(o, o + 4));
    assert(v.channel_id.wire() =~= w.subrange(0, 4));
    assert(b.subrange(o, o + 4) =~= w.subrange(0, 4));
    law_channel_id_layout(v.channel_id, b, o);
}

/// Law: where the fields of [`protocol::OpenReservedChannel`] stand.
pub proof fn law_open_reserved_channel_layout(v: protocol::OpenReservedChannel, b: Seq<u8>, o: int)
    requires
        0 <= o,
        o + 20 <= b.len(),
        b.subrange(o, o + 20) == v.wire(),
    ensures
        <protocol::OpenReservedChannel as Wire>::wire_len() == 20,
        word32(b, o) == v.channel_id.0,
        word32(b, o + 4) == v.target_vp,
        word32(b, o + 8) == v.target_sint,
        word32(b, o + 12) == v.ring_buffer_gpadl.0,
        word32(b, o + 16) == v.downstream_page_offset,
{
    v.channel_id.lemma_wire_len();
    v.target_vp.lemma_wire_len();
    v.target_sint.lemma_wire_len();
    v.ring_buffer_gpadl.lemma_wire_len();
    v.downstream_page_offset.lemma_wire_len();
    let w = v.wire();
    assert(w =~= b.subrange(o, o + 20));
    assert(v.channel_id.wire() =~= w.subrange(0, 4));
    assert(b.subrange(o, o + 4) =~= w.subrange(0, 4));
    law_channel_id_layout(v.channel_id, b, o);
    assert(v.target_vp.wire() =~= w.subrange(4, 8));
    assert(b.subrange(o + 4, o + 8) =~= w.subrange(4, 8));
    law_word32(v.target_vp, b, o + 4);
    assert(v.target_sint.wire() =~= w.subrange(8, 12));
    assert(b.subrange(o + 8, o + 12) =~= w.subrange(8, 12));
    law_word32(v.target_sint, b, o + 8);
    assert(v.ring_buffer_gpadl.wire() =~= w.subrange(12, 16));
    assert(b.subrange(o + 12, o + 16) =~= w.subrange(12, 16));
    law_gpadl_id_layout(v.ring_buffer_gpadl, b, o + 12);
    assert(v.downstream_page_offset.wire() =~= w.subrange(16, 20));
    assert(b.subrange(o + 16, o + 20) =~= w.subrange(16, 20));
    law_word32(v.downstream_page_offset, b, o + 16);
}

/// Law: where the fields of [`protocol::CloseReservedChannel`] stand.
pub proof fn law_close_reserved_channel_layout(v: protocol::CloseReservedChannel, b: Seq<u8>, o: int)
    requires
        0 <= o,
        o + 12 <= b.len(),
        b.subrange(o, o + 12) == v.wire(),
    ensures
        <protocol::CloseReservedChannel as Wire>::wire_len() == 12,
        word32(b, o) == v.channel_id.0,
        word32(b, o + 4) == v.target_vp,
        word32(b, o + 8) == v.target_sint,
{
    v.channel_id.lemma_wire_len();
    v.target_vp.lemma_wire_len();
    v.target_sint.lemma_wire_len();
    let w = v.wire();
    assert(w =~= b.subrange(o, o + 12));
    assert(v.channel_id.wire() =~= w.subrange(0, 4));
    assert(b.subrange(o, o + 4) =~= w.subrange(0, 4));
    law_channel_id_layout(v.channel_id, b, o);
    assert(v.target_vp.wire() =~= w.subrange(4, 8));
    assert(b.subrange(o + 4, o + 8) =~= w.subrange(4, 8));
    law_word32(v.target_vp, b, o + 4);
    assert(v.target_sint.wire() =~= w.subrange(8, 12));
    assert(b.subrange(o + 8, o + 12) =~= w.subrange(8, 12));
    law_word32(v.target_sint, b, o + 8);
}

/// Law: where the fields of [`protocol::CloseReservedChannelResponse`] stand.
pub proof fn law_close_reserved_channel_response_layout(v: protocol::CloseReservedChannelResponse, b: Seq<u8>, o: int)
    requires
        0 <= o,
        o + 4 <= b.len(),
        b.subrange(o, o + 4) == v.wire(),
    ensures
        <protocol::CloseReservedChannelResponse as Wire>::wire_len() == 4,
        word32(b, o) == v.channel_id.0,
{
    v.channel_id.lemma_wire_len();
    let w = v.wire();
    assert(w =~= b.subrange(o, o + 4));
    assert(v.channel_id.wire() =~= w.subrange(0, 4));
    assert(b.subrange(o, o + 4) =~= w.subrange(0, 4));
    law_channel_id_layout(v.channel_id, b, o);
}

/// Law: where the fields of [`protocol::ModifyChannel`] stand.
pub proof fn law_modify_channel_layout(v: protocol::ModifyChannel, b: Seq<u8>, o: int)
    requires
        0 <= o,
        o + 8 <= b.len(),
        b.subrange(o, o + 8) == v.wire(),
    ensures
        <protocol::ModifyChannel as Wire>::wire_len() == 8,
        word32(b, o) == v.channel_id.0,
        word32(b, o + 4) == v.target_vp,
{
    v.channel_id.lemma_wire_len();
    v.target_vp.lemma_wire_len();
    let w = v.wire();
    assert(w =~= b.subrange(o, o + 8));
    assert(v.channel_id.wire() =~= w.subrange(0, 4));
    assert(b.subrange(o, o + 4) =~= w.subrange(0, 4));
    law_channel_id_layout(v.channel_id, b, o);
    assert(v.target_vp.wire() =~= w.subrange(4, 8));
    assert(b.subrange(o + 4, o + 8) =~= w.subrange(4, 8));
    law_word32(v.target_vp, b, o + 4);
}

/// Law: where the fields of [`protocol::ModifyChannelResponse`] stand.
pub proof fn law_modify_channel_response_layout(v: protocol::ModifyChannelResponse, b: Seq<u8>, o: int)
    requires
        0 <= o,
        o + 8 <= b.len(),
        b.subrange(o, o + 8) == v.wire(),
    ensures
        <protocol::ModifyChannelResponse as Wire>::wire_len() == 8,
        word32(b, o) == v.channel_id.0,
        signed32(b, o + 4) == v.status,
{
    v.channel_id.lemma_wire_len();
    v.status.lemma_wire_len();
    let w = v.wire();
    assert(w =~= b.subrange(o, o + 8));
    assert(v.channel_id.wire() =~= w.subrange(0, 4));
    assert(b.subrange(o, o + 4) =~= w.subrange(0, 4));
    law_channel_id_layout(v.channel_id, b, o);
    assert(v.status.wire() =~= w.subrange(4, 8));
    assert(b.subrange(o + 4, o + 8) =~= w.subrange(4, 8));
    law_signed32(v.status, b, o + 4);
}

/// Law: where the fields of [`protocol::ModifyConnection`] stand.
pub proof fn law_modify_connection_layout(v: protocol::ModifyConnection, b: Seq<u8>, o: int)
    requires
        0 <= o,
        o + 16 <= b.len(),
        b.subrange(o, o + 16) == v.wire(),
    ensures
        <protocol::ModifyConnection as Wire>::wire_len() == 16,
        word64(b, o) == v.parent_to_child_monitor_page_gpa,
        word64(b, o + 8) == v.child_to_parent_monitor_page_gpa,
{
    v.parent_to_child_monitor_page_gpa.lemma_wire_len();
    v.child_to_parent_monitor_page_gpa.lemma_wire_len();
    let w = v.wire();
    assert(w =~= b.subrange(o, o + 16));
    assert(v.parent_to_child_monitor_page_gpa.wire() =~= w.subrange(0, 8));
    assert(b.subrange(o, o + 8) =~= w.subrange(0, 8));
    law_word64(v.parent_to_child_monitor_page_gpa, b, o);
    assert(v.child_to_parent_monitor_page_gpa.wire() =~= w.subrange(8, 16));
    assert(b.subrange(o + 8, o + 16) =~= w.subrange(8, 16));
    law_word64(v.child_to_parent_monitor_page_gpa, b, o + 8);
}

/// Law: where the fields of [`protocol::ModifyConnectionResponse`] stand.
pub proof fn law_modify_connection_response_layout(v: protocol::ModifyConnectionResponse, b: Seq<u8>, o: int)
    requires
        0 <= o,
        o + 1 <= b.len(),
        b.subrange(o, o + 1) == v.wire(),
    ensures
        <protocol::ModifyConnectionResponse as Wire>::wire_len() == 1,
        b[o] == v.connection_state.0,
{
    v.connection_state.lemma_wire_len();
    let w = v.wire();
    assert(w =~= b.subrange(o, o + 1));
    assert(v.connection_state.wire() =~= w.subrange(0, 1));
    assert(b.subrange(o, o + 1) =~= w.subrange(0, 1));
    law_connection_state_layout(v.connection_state, b, o);
}

/// Law: where the fields of [`protocol::PipeType`] stand.
pub proof fn law_pipe_type_layout(v: protocol::PipeType, b: Seq<u8>, o: int)
    requires
        0 <= o,
        o + 4 <= b.len(),
        b.subrange(o, o + 4) == v.wire(),
    ensures
        <protocol::PipeType as Wire>::wire_len() == 4,
        word32(b, o) == v.0,
{
    v.0.lemma_wire_len();
    let w = v.wire();
    assert(w =~= b.subrange(o, o + 4));
    assert(v.0.wire() =~= w.subrange(0, 4));
    assert(b.subrange(o, o + 4) =~= w.subrange(0, 4));
    law_word32(v.0, b, o);
}

/// Law: where the fields of [`protocol::PipeUserDefinedParameters`] stand.
pub proof fn law_pipe_user_defined_parameters_layout(v: protocol::PipeUserDefinedParameters, b: Seq<u8>, o: int)
    requires
        0 <= o,
        o + 4 <= b.len(),
        b.subrange(o, o + 4) == v.wire(),
    ensures
        <protocol::PipeUserDefinedParameters as Wire>::wire_len() == 4,
        word32(b, o) == v.pipe_type.0,
{
    v.pipe_type.lemma_wire_len();
    let w = v.wire();
    assert(w =~= b.subrange(o, o + 4));
    assert(v.pipe_type.wire() =~= w.subrange(0, 4));
    assert(b.subrange(o, o + 4) =~= w.subrange(0, 4));
    law_pipe_type_layout(v.pipe_type, b, o);
}

/// Law: where the fields of [`protocol::HvsockParametersVersion`] stand.
pub proof fn law_hvsock_parameters_version_layout(v: protocol::HvsockParametersVersion, b: Seq<u8>, o: int)
    requires
        0 <= o,
        o + 4 <= b.len(),
        b.subrange(o, o + 4) == v.wire(),
    ensures
        <protocol::HvsockParametersVersion as Wire>::wire_len() == 4,
        word32(b, o) == v.0,
{
    v.0.lemma_wire_len();
    let w = v.wire();
    assert(w =~= b.subrange(o, o + 4));
    assert(v.0.wire() =~= w.subrange(0, 4));
    assert(b.subrange(o, o + 4) =~= w.subrange(0, 4));
    law_word32(v.0, b, o);
}

/// Law: where the fields of [`protocol::HvsockUserDefinedParameters`] stand.
pub proof fn law_hvsock_user_defined_parameters_layout(v: protocol::HvsockUserDefinedParameters, b: Seq<u8>, o: int)
    requires
        0 <= o,
        o + 28 <= b.len(),
        b.subrange(o, o + 28) == v.wire(),
    ensures
        <protocol::HvsockUserDefinedParameters as Wire>::wire_len() == 28,
        word32(b, o) == v.pipe_params.pipe_type.0,
        b[o + 4] == v.is_for_guest_accept,
        b[o + 5] == v.is_for_guest_container,
        word32(b, o + 6) == v.version.0,
        word32(b, o + 10) == v.silo_id.data1,
        word16(b, o + 14) == v.silo_id.data2,
        word16(b, o + 16) == v.silo_id.data3,
        forall|i: int| 0 <= i < 8 ==> #[trigger] v.silo_id.data4@[i] == b[o + 18 + i],
        forall|i: int| 0 <= i < 2 ==> #[trigger] v._padding@[i] == b[o + 26 + i],
{
    v.pipe_params.lemma_wire_len();
    v.is_for_guest_accept.lemma_wire_len();
    v.is_for_guest_container.lemma_wire_len();
    v.version.lemma_wire_len();
    v.silo_id.lemma_wire_len();
    v._padding.lemma_wire_len();
    let w = v.wire();
    assert(w =~= b.subrange(o, o + 28));
    assert(v.pipe_params.wire() =~= w.subrange(0, 4));
    assert(b.subrange(o, o + 4) =~= w.subrange(0, 4));
    law_pipe_user_defined_parameters_layout(v.pipe_params, b, o);
    assert(v.is_for_guest_accept.wire() =~= w.subrange(4, 5));
    assert(b.subrange(o + 4, o + 5) =~= w.subrange(4, 5));
    assert(w[4] == v.is_for_guest_accept.wire()[0]);
    assert(b[o + 4] == w[4]);
    assert(v.is_for_guest_container.wire() =~= w.subrange(5, 6));
    assert(b.subrange(o + 5, o + 6) =~= w.subrange(5, 6));
    assert(w[5] == v.is_for_guest_container.wire()[0]);
    assert(b[o + 5] == w[5]);
    assert(v.version.wire() =~= w.subrange(6, 10));
    assert(b.subrange(o + 6, o + 10) =~= w.subrange(6, 10));
    law_hvsock_parameters_version_layout(v.version, b, o + 6);
    assert(v.silo_id.wire() =~= w.subrange(10, 26));
    assert(b.subrange(o + 10, o + 26) =~= w.subrange(10, 26));
    law_guid_layout(v.silo_id, b, o + 10);
    assert(v._padding.wire() =~= w.subrange(26, 28));
    assert(b.subrange(o + 26, o + 28) =~= w.subrange(26, 28));
    assert forall|i: int| 0 <= i < 2 implies #[trigger] v._padding@[i] == b[o + 26 + i] by {
        assert(b[o + 26 + i] == w[26 + i]);
        assert(v._padding.wire()[i] == w[26 + i]);
    }
}

/// Law: where the fields of [`protocol::TlConnectRequest`] stand.
pub proof fn law_tl_connect_request_layout(v: protocol::TlConnectRequest, b: Seq<u8>, o: int)
    requires
        0 <= o,
        o + 32 <= b.len(),
        b.subrange(o, o + 32) == v.wire(),
    ensures
        <protocol::TlConnectRequest as Wire>::wire_len() == 32,
        word32(b, o) == v.endpoint_id.data1,
        word16(b, o + 4) == v.endpoint_id.data2,
        word16(b, o + 6) == v.endpoint_id.data3,
        forall|i: int| 0 <= i < 8 ==> #[trigger] v.endpoint_id.data4@[i] == b[o + 8 + i],
        word32(b, o + 16) == v.service_id.data1,
        word16(b, o + 20) == v.service_id.data2,
        word16(b, o + 22) == v.service_id.data3,
        forall|i: int| 0 <= i < 8 ==> #[trigger] v.service_id.data4@[i] == b[o + 24 + i],
{
    v.endpoint_id.lemma_wire_len();
    v.service_id.lemma_wire_len();
    let w = v.wire();
    assert(w =~= b.subrange(o, o + 32));
    assert(v.endpoint_id.wire() =~= w.subrange(0, 16));
    assert(b.subrange(o, o + 16) =~= w.subrange(0, 16));
    law_guid_layout(v.endpoint_id, b, o);
    assert(v.service_id.wire() =~= w.subrange(16, 32));
    assert(b.subrange(o + 16, o + 32) =~= w.subrange(16, 32));
    law_guid_layout(v.service_id, b, o + 16);
}

/// Law: where the fields of [`protocol::TlConnectRequest2`] stand.
pub proof fn law_tl_connect_request2_layout(v: protocol::TlConnectRequest2, b: Seq<u8>, o: int)
    requires
        0 <= o,
        o + 48 <= b.len(),
        b.subrange(o, o + 48) == v.wire(),
    ensures
        <protocol::TlConnectRequest2 as Wire>::wire_len() == 48,
        word32(b, o) == v.base.endpoint_id.data1,
        word16(b, o + 4) == v.base.endpoint_id.data2,
        word16(b, o + 6) == v.base.endpoint_id.data3,
        forall|i: int| 0 <= i < 8 ==> #[trigger] v.base.endpoint_id.data4@[i] == b[o + 8 + i],
        word32(b, o + 16) == v.base.service_id.data1,
        word16(b, o + 20) == v.base.service_id.data2,
        word16(b, o + 22) == v.base.service_id.data3,
        forall|i: int| 0 <= i < 8 ==> #[trigger] v.base.service_id.data4@[i] == b[o + 24 + i],
        word32(b, o + 32) == v.silo_id.data1,
        word16(b, o + 36) == v.silo_id.data2,
        word16(b, o + 38) == v.silo_id.data3,
        forall|i: int| 0 <= i < 8 ==> #[trigger] v.silo_id.data4@[i] == b[o + 40 + i],
{
    v.base.lemma_wire_len();
    v.silo_id.lemma_wire_len();
    let w = v.wire();
    assert(w =~= b.subrange(o, o + 48));
    assert(v.base.wire() =~= w.subrange(0, 32));
    assert(b.subrange(o, o + 32) =~= w.subrange(0, 32));
    law_tl_connect_request_layout(v.base, b, o);
    assert(v.silo_id.wire() =~= w.subrange(32, 48));
    assert(b.subrange(o + 32, o + 48) =~= w.subrange(32, 48));
    law_guid_layout(v.silo_id, b, o + 32);
}

/// Law: where the fields of [`protocol::TlConnectResult`] stand.
pub proof fn law_tl_connect_result_layout(v: protocol::TlConnectResult, b: Seq<u8>, o: int)
    requires
        0 <= o,
        o + 36 <= b.len(),
        b.subrange(o, o + 36) == v.wire(),
    ensures
        <protocol::TlConnectResult as Wire>::wire_len() == 36,
        word32(b, o) == v.endpoint_id.data1,
        word16(b, o + 4) == v.endpoint_id.data2,
        word16(b, o + 6) == v.endpoint_id.data3,
        forall|i: int| 0 <= i < 8 ==> #[trigger] v.endpoint_id.data4@[i] == b[o + 8 + i],
        word32(b, o + 16) == v.service_id.data1,
        word16(b, o + 20) == v.service_id.data2,
        word16(b, o + 22) == v.service_id.data3,
        forall|i: int| 0 <= i < 8 ==> #[trigger] v.service_id.data4@[i] == b[o + 24 + i],
        signed32(b, o + 32) == v.status,
{
    v.endpoint_id.lemma_wire_len();
    v.service_id.lemma_wire_len();
    v.status.lemma_wire_len();
    let w = v.wire();
    assert(w =~= b.subrange(o, o + 36));
    assert(v.endpoint_id.wire() =~= w.subrange(0, 16));
    assert(b.subrange(o, o + 16) =~= w.subrange(0, 16));
    law_guid_layout(v.endpoint_id, b, o);
    assert(v.service_id.wire() =~= w.subrange(16, 32));
    assert(b.subrange(o + 16, o + 32) =~= w.subrange(16, 32));
    law_guid_layout(v.service_id, b, o + 16);
    assert(v.status.wire() =~= w.subrange(32, 36));
    assert(b.subrange(o + 32, o + 36) =~= w.subrange(32, 36));
    law_signed32(v.status, b, o + 32);
}

/// Law: [`protocol::RequestOffers`] has no body.
pub proof fn law_request_offers_layout(v: protocol::RequestOffers)
    ensures
        v.wire().len() == 0,
{
}

/// Law: [`protocol::AllOffersDelivered`] has no body.
pub proof fn law_all_offers_delivered_layout(v: protocol::AllOffersDelivered)
    ensures
        v.wire().len() == 0,
{
}

/// Law: [`protocol::Unload`] has no body.
pub proof fn law_unload_layout(v: protocol::Unload)
    ensures
        v.wire().len() == 0,
{
}

/// Law: [`protocol::UnloadComplete`] has no body.
pub proof fn law_unload_complete_layout(v: protocol::UnloadComplete)
    ensures
        v.wire().len() == 0,
{
}

/// Law: [`protocol::Pause`] has no body.
pub proof fn law_pause_layout(v: protocol::Pause)
    ensures
        v.wire().len() == 0,
{
}

/// Law: [`protocol::PauseResponse`] has no body.
pub proof fn law_pause_response_layout(v: protocol::PauseResponse)
    ensures
        v.wire().len() == 0,
{
}

/// Law: [`protocol::Resume`] has no body.
pub proof fn law_resume_layout(v: protocol::Resume)
    ensures
        v.wire().len() == 0,
{
}

/// Law: where the fields of [`protocol::PacketType`] stand.
pub proof fn law_packet_type_layout(v: protocol::PacketType, b: Seq<u8>, o: int)
    requires
        0 <= o,
        o + 2 <= b.len(),
        b.subrange(o, o + 2) == v.wire(),
    ensures
        <protocol::PacketType as Wire>::wire_len() == 2,
        word16(b, o) == v.0,
{
    v.0.lemma_wire_len();
    let w = v.wire();
    assert(w =~= b.subrange(o, o + 2));
    assert(v.0.wire() =~= w.subrange(0, 2));
    assert(b.subrange(o, o + 2) =~= w.subrange(0, 2));
    law_word16(v.0, b, o);
}

/// Law: where the fields of [`protocol::PacketFlags`] stand.
pub proof fn law_packet_flags_layout(v: protocol::PacketFlags, b: Seq<u8>, o: int)
    requires
        0 <= o,
        o + 2 <= b.len(),
        b.subrange(o, o + 2) == v.wire(),
    ensures
        <protocol::PacketFlags as Wire>::wire_len() == 2,
        word16(b, o) == v.0,
{
    v.0.lemma_wire_len();
    let w = v.wire();
    assert(w =~= b.subrange(o, o + 2));
    assert(v.0.wire() =~= w.subrange(0, 2));
    assert(b.subrange(o, o + 2) =~= w.subrange(0, 2));
    law_word16(v.0, b, o);
}

/// Law: where the fields of [`protocol::PacketDescriptor`] stand.
pub proof fn law_packet_descriptor_layout(v: protocol::PacketDescriptor, b: Seq<u8>, o: int)
    requires
        0 <= o,
        o + 16 <= b.len(),
        b.subrange(o, o + 16) == v.wire(),
    ensures
        <protocol::PacketDescriptor as Wire>::wire_len() == 16,
        word16(b, o) == v.packet_type.0,
        word16(b, o + 2) == v.data_offset8,
        word16(b, o + 4) == v.length8,
        word16(b, o + 6) == v.flags.0,
        word64(b, o + 8) == v.transaction_id,
{
    v.packet_type.lemma_wire_len();
    v.data_offset8.lemma_wire_len();
    v.length8.lemma_wire_len();
    v.flags.lemma_wire_len();
    v.transaction_id.lemma_wire_len();
    let w = v.wire();
    assert(w =~= b.subrange(o, o + 16));
    assert(v.packet_type.wire() =~= w.subrange(0, 2));
    assert(b.subrange(o, o + 2) =~= w.subrange(0, 2));
    law_packet_type_layout(v.packet_type, b, o);
    assert(v.data_offset8.wire() =~= w.subrange(2, 4));
    assert(b.subrange(o + 2, o + 4) =~= w.subrange(2, 4));
    law_word16(v.data_offset8, b, o + 2);
    assert(v.length8.wire() =~= w.subrange(4, 6));
    assert(b.subrange(o + 4, o + 6) =~= w.subrange(4, 6));
    law_word16(v.length8, b, o + 4);
    assert(v.flags.wire() =~= w.subrange(6, 8));
    assert(b.subrange(o + 6, o + 8) =~= w.subrange(6, 8));
    law_packet_flags_layout(v.flags, b, o + 6);
    assert(v.transaction_id.wire() =~= w.subrange(8, 16));
    assert(b.subrange(o + 8, o + 16) =~= w.subrange(8, 16));
    law_word64(v.transaction_id, b, o + 8);
}

/// Law: where the fields of [`protocol::GpaRange`] stand.
pub proof fn law_gpa_range_layout(v: protocol::GpaRange, b: Seq<u8>, o: int)
    requires
        0 <= o,
        o + 8 <= b.len(),
        b.subrange(o, o + 8) == v.wire(),
    ensures
        <protocol::GpaRange as Wire>::wire_len() == 8,
        word32(b, o) == v.byte_count,
        word32(b, o + 4) == v.byte_offset,
{
    v.byte_count.lemma_wire_len();
    v.byte_offset.lemma_wire_len();
    let w = v.wire();
    assert(w =~= b.subrange(o, o + 8));
    assert(v.byte_count.wire() =~= w.subrange(0, 4));
    assert(b.subrange(o, o + 4) =~= w.subrange(0, 4));
    law_word32(v.byte_count, b, o);
    assert(v.byte_offset.wire() =~= w.subrange(4, 8));
    assert(b.subrange(o + 4, o + 8) =~= w.subrange(4, 8));
    law_word32(v.byte_offset, b, o + 4);
}

/// Law: where the fields of [`protocol::GpaDirectHeader`] stand.
pub proof fn law_gpa_direct_header_layout(v: protocol::GpaDirectHeader, b: Seq<u8>, o: int)
    requires
        0 <= o,
        o + 8 <= b.len(),
        b.subrange(o, o + 8) == v.wire(),
    ensures
        <protocol::GpaDirectHeader as Wire>::wire_len() == 8,
        word32(b, o) == v.reserved,
        word32(b, o + 4) == v.range_count,
{
    v.reserved.lemma_wire_len();
    v.range_count.lemma_wire_len();
    let w = v.wire();
    assert(w =~= b.subrange(o, o + 8));
    assert(v.reserved.wire() =~= w.subrange(0, 4));
    assert(b.subrange(o, o + 4) =~= w.subrange(0, 4));
    law_word32(v.reserved, b, o);
    assert(v.range_count.wire() =~= w.subrange(4, 8));
    assert(b.subrange(o + 4, o + 8) =~= w.subrange(4, 8));
    law_word32(v.range_count, b, o + 4);
}

/// Law: where the fields of [`protocol::TransferPageHeader`] stand.
pub proof fn law_transfer_page_header_layout(v: protocol::TransferPageHeader, b: Seq<u8>, o: int)
    requires
        0 <= o,
        o + 8 <= b.len(),
        b.subrange(o, o + 8) == v.wire(),
    ensures
        <protocol::TransferPageHeader as Wire>::wire_len() == 8,
        word16(b, o) == v.transfer_page_set_id,
        word16(b, o + 2) == v.reserved,
        word32(b, o + 4) == v.range_count,
{
    v.transfer_page_set_id.lemma_wire_len();
    v.reserved.lemma_wire_len();
    v.range_count.lemma_wire_len();
    let w = v.wire();
    assert(w =~= b.subrange(o, o + 8));
    assert(v.transfer_page_set_id.wire() =~= w.subrange(0, 2));
    assert(b.subrange(o, o + 2) =~= w.subrange(0, 2));
    law_word16(v.transfer_page_set_id, b, o);
    assert(v.reserved.wire() =~= w.subrange(2, 4));
    assert(b.subrange(o + 2, o + 4) =~= w.subrange(2, 4));
    law_word16(v.reserved, b, o + 2);
    assert(v.range_count.wire() =~= w.subrange(4, 8));
    assert(b.subrange(o + 4, o + 8) =~= w.subrange(4, 8));
    law_word32(v.range_count, b, o + 4);
}

/// Law: where the fields of [`protocol::TransferPageRange`] stand.
pub proof fn law_transfer_page_range_layout(v: protocol::TransferPageRange, b: Seq<u8>, o: int)
    requires
        0 <= o,
        o + 8 <= b.len(),
        b.subrange(o, o + 8) == v.wire(),
    ensures
        <protocol::TransferPageRange as Wire>::wire_len() == 8,
        word32(b, o) == v.byte_count,
        word32(b, o + 4) == v.byte_offset,
{
    v.byte_count.lemma_wire_len();
    v.byte_offset.lemma_wire_len();
    let w = v.wire();
    assert(w =~= b.subrange(o, o + 8));
    assert(v.byte_count.wire() =~= w.subrange(0, 4));
    assert(b.subrange(o, o + 4) =~= w.subrange(0, 4));
    law_word32(v.byte_count, b, o);
    assert(v.byte_offset.wire() =~= w.subrange(4, 8));
    assert(b.subrange(o + 4, o + 8) =~= w.subrange(4, 8));
    law_word32(v.byte_offset, b, o + 4);
}

/// Law: where the fields of [`hv::HvRegisterName`] stand.
pub proof fn law_hv_hv_register_name_layout(v: hv::HvRegisterName, b: Seq<u8>, o: int)
    requires
        0 <= o,
        o + 4 <= b.len(),
        b.subrange(o, o + 4) == v.wire(),
    ensures
        <hv::HvRegisterName as Wire>::wire_len() == 4,
        word32(b, o) == v.0,
{
    v.0.lemma_wire_len();
    let w = v.wire();
    assert(w =~= b.subrange(o, o + 4));
    assert(v.0.wire() =~= w.subrange(0, 4));
    assert(b.subrange(o, o + 4) =~= w.subrange(0, 4));
    law_word32(v.0, b, o);
}

/// Law: where the fields of [`hv::HvMessageType`] stand.
pub proof fn law_hv_hv_message_type_layout(v: hv::HvMessageType, b: Seq<u8>, o: int)
    requires
        0 <= o,
        o + 4 <= b.len(),
        b.subrange(o, o + 4) == v.wire(),
    ensures
        <hv::HvMessageType as Wire>::wire_len() == 4,
        word32(b, o) == v.0,
{
    v.0.lemma_wire_len();
    let w = v.wire();
    assert(w =~= b.subrange(o, o + 4));
    assert(v.0.wire() =~= w.subrange(0, 4));
    assert(b.subrange(o, o + 4) =~= w.subrange(0, 4));
    law_word32(v.0, b, o);
}

/// Law: where the fields of [`hv::HvInputVtl`] stand.
pub proof fn law_hv_hv_input_vtl_layout(v: hv::HvInputVtl, b: Seq<u8>, o: int)
    requires
        0 <= o,
        o + 1 <= b.len(),
        b.subrange(o, o + 1) == v.wire(),
    ensures
        <hv::HvInputVtl as Wire>::wire_len() == 1,
        b[o] == v.0,
{
    v.0.lemma_wire_len();
    let w = v.wire();
    assert(w =~= b.subrange(o, o + 1));
    assert(v.0.wire() =~= w.subrange(0, 1));
    assert(b.subrange(o, o + 1) =~= w.subrange(0, 1));
    assert(w[0] == v.0.wire()[0]);
    assert(b[o] == w[0]);
}

/// Law: where the fields of [`hv::HvRegisterValue`] stand.
pub proof fn law_hv_hv_register_value_layout(v: hv::HvRegisterValue, b: Seq<u8>, o: int)
    requires
        0 <= o,
        o + 16 <= b.len(),
        b.subrange(o, o + 16) == v.wire(),
    ensures
        <hv::HvRegisterValue as Wire>::wire_len() == 16,
        word64(b, o) == v.low,
        word64(b, o + 8) == v.high,
{
    v.low.lemma_wire_len();
    v.high.lemma_wire_len();
    let w = v.wire();
    assert(w =~= b.subrange(o, o + 16));
    assert(v.low.wire() =~= w.subrange(0, 8));
    assert(b.subrange(o, o + 8) =~= w.subrange(0, 8));
    law_word64(v.low, b, o);
    assert(v.high.wire() =~= w.subrange(8, 16));
    assert(b.subrange(o + 8, o + 16) =~= w.subrange(8, 16));
    law_word64(v.high, b, o + 8);
}

/// Law: where the fields of [`hv::HvRegisterAssoc`] stand.
pub proof fn law_hv_hv_register_assoc_layout(v: hv::HvRegisterAssoc, b: Seq<u8>, o: int)
    requires
        0 <= o,
        o + 32 <= b.len(),
        b.subrange(o, o + 32) == v.wire(),
    ensures
        <hv::HvRegisterAssoc as Wire>::wire_len() == 32,
        word32(b, o) == v.name.0,
        forall|i: int| 0 <= i < 12 ==> #[trigger] v.pad@[i] == b[o + 4 + i],
        word64(b, o + 16) == v.value.low,
        word64(b, o + 24) == v.value.high,
{
    v.name.lemma_wire_len();
    v.pad.lemma_wire_len();
    v.value.lemma_wire_len();
    let w = v.wire();
    assert(w =~= b.subrange(o, o + 32));
    assert(v.name.wire() =~= w.subrange(0, 4));
    assert(b.subrange(o, o + 4) =~= w.subrange(0, 4));
    law_hv_hv_register_name_layout(v.name, b, o);
    assert(v.pad.wire() =~= w.subrange(4, 16));
    assert(b.subrange(o + 4, o + 16) =~= w.subrange(4, 16));
    assert forall|i: int| 0 <= i < 12 implies #[trigger] v.pad@[i] == b[o + 4 + i] by {
        assert(b[o + 4 + i] == w[4 + i]);
        assert(v.pad.wire()[i] == w[4 + i]);
    }
    assert(v.value.wire() =~= w.subrange(16, 32));
    assert(b.subrange(o + 16, o + 32) =~= w.subrange(16, 32));
    law_hv_hv_register_value_layout(v.value, b, o + 16);
}

/// Law: where the fields of [`hv::GetSetVpRegisters`] stand.
pub proof fn law_hv_get_set_vp_registers_layout(v: hv::GetSetVpRegisters, b: Seq<u8>, o: int)
    requires
        0 <= o,
        o + 16 <= b.len(),
        b.subrange(o, o + 16) == v.wire(),
    ensures
        <hv::GetSetVpRegisters as Wire>::wire_len() == 16,
        word64(b, o) == v.partition_id,
        word32(b, o + 8) == v.vp_index,
        b[o + 12] == v.target_vtl.0,
        forall|i: int| 0 <= i < 3 ==> #[trigger] v.rsvd@[i] == b[o + 13 + i],
{
    v.partition_id.lemma_wire_len();
    v.vp_index.lemma_wire_len();
    v.target_vtl.lemma_wire_len();
    v.rsvd.lemma_wire_len();
    let w = v.wire();
    assert(w =~= b.subrange(o, o + 16));
    assert(v.partition_id.wire() =~= w.subrange(0, 8));
    assert(b.subrange(o, o + 8) =~= w.subrange(0, 8));
    law_word64(v.partition_id, b, o);
    assert(v.vp_index.wire() =~= w.subrange(8, 12));
    assert(b.subrange(o + 8, o + 12) =~= w.subrange(8, 12));
    law_word32(v.vp_index, b, o + 8);
    assert(v.target_vtl.wire() =~= w.subrange(12, 13));
    assert(b.subrange(o + 12, o + 13) =~= w.subrange(12, 13));
    law_hv_hv_input_vtl_layout(v.target_vtl, b, o + 12);
    assert(v.rsvd.wire() =~= w.subrange(13, 16));
    assert(b.subrange(o + 13, o + 16) =~= w.subrange(13, 16));
    assert forall|i: int| 0 <= i < 3 implies #[trigger] v.rsvd@[i] == b[o + 13 + i] by {
        assert(b[o + 13 + i] == w[13 + i]);
        assert(v.rsvd.wire()[i] == w[13 + i]);
    }
}

/// Law: where the fields of [`hv::SignalEvent`] stand.
pub proof fn law_hv_signal_event_layout(v: hv::SignalEvent, b: Seq<u8>, o: int)
    requires
        0 <= o,
        o + 8 <= b.len(),
        b.subrange(o, o + 8) == v.wire(),
    ensures
        <hv::SignalEvent as Wire>::wire_len() == 8,
        word32(b, o) == v.connection_id,
        word16(b, o + 4) == v.flag_number,
        word16(b, o + 6) == v.rsvd,
{
    v.connection_id.lemma_wire_len();
    v.flag_number.lemma_wire_len();
    v.rsvd.lemma_wire_len();
    let w = v.wire();
    assert(w =~= b.subrange(o, o + 8));
    assert(v.connection_id.wire() =~= w.subrange(0, 4));
    assert(b.subrange(o, o + 4) =~= w.subrange(0, 4));
    law_word32(v.connection_id, b, o);
    assert(v.flag_number.wire() =~= w.subrange(4, 6));
    assert(b.subrange(o + 4, o + 6) =~= w.subrange(4, 6));
    law_word16(v.flag_number, b, o + 4);
    assert(v.rsvd.wire() =~= w.subrange(6, 8));
    assert(b.subrange(o + 6, o + 8) =~= w.subrange(6, 8));
    law_word16(v.rsvd, b, o + 6);
}

/// Law: where the fields of [`netvsp::MessageHeader`] stand.
pub proof fn law_nvsp_message_header_layout(v: netvsp::MessageHeader, b: Seq<u8>, o: int)
    requires
        0 <= o,
        o + 4 <= b.len(),
        b.subrange(o, o + 4) == v.wire(),
    ensures
        <netvsp::MessageHeader as Wire>::wire_len() == 4,
        word32(b, o) == v.message_type,
{
    v.message_type.lemma_wire_len();
    let w = v.wire();
    assert(w =~= b.subrange(o, o + 4));
    assert(v.message_type.wire() =~= w.subrange(0, 4));
    assert(b.subrange(o, o + 4) =~= w.subrange(0, 4));
    law_word32(v.message_type, b, o);
}

/// Law: where the fields of [`netvsp::NvspMsgInit`] stand.
pub proof fn law_nvsp_nvsp_msg_init_layout(v: netvsp::NvspMsgInit, b: Seq<u8>, o: int)
    requires
        0 <= o,
        o + 8 <= b.len(),
        b.subrange(o, o + 8) == v.wire(),
    ensures
        <netvsp::NvspMsgInit as Wire>::wire_len() == 8,
        word32(b, o) == v.protocol_version,
        word32(b, o + 4) == v.protocol_version2,
{
    v.protocol_version.lemma_wire_len();
    v.protocol_version2.lemma_wire_len();
    let w = v.wire();
    assert(w =~= b.subrange(o, o + 8));
    assert(v.protocol_version.wire() =~= w.subrange(0, 4));
    assert(b.subrange(o, o + 4) =~= w.subrange(0, 4));
    law_word32(v.protocol_version, b, o);
    assert(v.protocol_version2.wire() =~= w.subrange(4, 8));
    assert(b.subrange(o + 4, o + 8) =~= w.subrange(4, 8));
    law_word32(v.protocol_version2, b, o + 4);
}

/// Law: where the fields of [`netvsp::NvspMsgInitComplete`] stand.
pub proof fn law_nvsp_nvsp_msg_init_complete_layout(v: netvsp::NvspMsgInitComplete, b: Seq<u8>, o: int)
    requires
        0 <= o,
        o + 12 <= b.len(),
        b.subrange(o, o + 12) == v.wire(),
    ensures
        <netvsp::NvspMsgInitComplete as Wire>::wire_len() == 12,
        word32(b, o) == v.deprecated,
        word32(b, o + 4) == v.maximum_mdl_chain_length,
        word32(b, o + 8) == v.status,
{
    v.deprecated.lemma_wire_len();
    v.maximum_mdl_chain_length.lemma_wire_len();
    v.status.lemma_wire_len();
    let w = v.wire();
    assert(w =~= b.subrange(o, o + 12));
    assert(v.deprecated.wire() =~= w.subrange(0, 4));
    assert(b.subrange(o, o + 4) =~= w.subrange(0, 4));
    law_word32(v.deprecated, b, o);
    assert(v.maximum_mdl_chain_length.wire() =~= w.subrange(4, 8));
    assert(b.subrange(o + 4, o + 8) =~= w.subrange(4, 8));
    law_word32(v.maximum_mdl_chain_length, b, o + 4);
    assert(v.status.wire() =~= w.subrange(8, 12));
    assert(b.subrange(o + 8, o + 12) =~= w.subrange(8, 12));
    law_word32(v.status, b, o + 8);
}

/// Law: where the fields of [`netvsp::Nvsp1MsgSendNdisVersion`] stand.
pub proof fn law_nvsp_nvsp1_msg_send_ndis_version_layout(v: netvsp::Nvsp1MsgSendNdisVersion, b: Seq<u8>, o: int)
    requires
        0 <= o,
        o + 8 <= b.len(),
        b.subrange(o, o + 8) == v.wire(),
    ensures
        <netvsp::Nvsp1MsgSendNdisVersion as Wire>::wire_len() == 8,
        word32(b, o) == v.ndis_major_version,
        word32(b, o + 4) == v.ndis_minor_version,
{
    v.ndis_major_version.lemma_wire_len();
    v.ndis_minor_version.lemma_wire_len();
    let w = v.wire();
    assert(w =~= b.subrange(o, o + 8));
    assert(v.ndis_major_version.wire() =~= w.subrange(0, 4));
    assert(b.subrange(o, o + 4) =~= w.subrange(0, 4));
    law_word32(v.ndis_major_version, b, o);
    assert(v.ndis_minor_version.wire() =~= w.subrange(4, 8));
    assert(b.subrange(o + 4, o + 8) =~= w.subrange(4, 8));
    law_word32(v.ndis_minor_version, b, o + 4);
}

/// Law: where the fields of [`netvsp::Nvsp1MsgSendBuffer`] stand.
pub proof fn law_nvsp_nvsp1_msg_send_buffer_layout(v: netvsp::Nvsp1MsgSendBuffer, b: Seq<u8>, o: int)
    requires
        0 <= o,
        o + 8 <= b.len(),
        b.subrange(o, o + 8) == v.wire(),
    ensures
        <netvsp::Nvsp1MsgSendBuffer as Wire>::wire_len() == 8,
        word32(b, o) == v.gpadl_handle,
        word16(b, o + 4) == v.id,
        word16(b, o + 6) == v.pad,
{
    v.gpadl_handle.lemma_wire_len();
    v.id.lemma_wire_len();
    v.pad.lemma_wire_len();
    let w = v.wire();
    assert(w =~= b.subrange(o, o + 8));
    assert(v.gpadl_handle.wire() =~= w.subrange(0, 4));
    assert(b.subrange(o, o + 4) =~= w.subrange(0, 4));
    law_word32(v.gpadl_handle, b, o);
    assert(v.id.wire() =~= w.subrange(4, 6));
    assert(b.subrange(o + 4, o + 6) =~= w.subrange(4, 6));
    law_word16(v.id, b, o + 4);
    assert(v.pad.wire() =~= w.subrange(6, 8));
    assert(b.subrange(o + 6, o + 8) =~= w.subrange(6, 8));
    law_word16(v.pad, b, o + 6);
}

/// Law: where the fields of [`netvsp::Nvsp1ReceiveBufferSection`] stand.
pub proof fn law_nvsp_nvsp1_receive_buffer_section_layout(v: netvsp::Nvsp1ReceiveBufferSection, b: Seq<u8>, o: int)
    requires
        0 <= o,
        o + 16 <= b.len(),
        b.subrange(o, o + 16) == v.wire(),
    ensures
        <netvsp::Nvsp1ReceiveBufferSection as Wire>::wire_len() == 16,
        word32(b, o) == v.offset,
        word32(b, o + 4) == v.sub_alloc_size,
        word32(b, o + 8) == v.num_sub_allocs,
        word32(b, o + 12) == v.end_offset,
{
    v.offset.lemma_wire_len();
    v.sub_alloc_size.lemma_wire_len();
    v.num_sub_allocs.lemma_wire_len();
    v.end_offset.lemma_wire_len();
    let w = v.wire();
    assert(w =~= b.subrange(o, o + 16));
    assert(v.offset.wire() =~= w.subrange(0, 4));
    assert(b.subrange(o, o + 4) =~= w.subrange(0, 4));
    law_word32(v.offset, b, o);
    assert(v.sub_alloc_size.wire() =~= w.subrange(4, 8));
    assert(b.subrange(o + 4, o + 8) =~= w.subrange(4, 8));
    law_word32(v.sub_alloc_size, b, o + 4);
    assert(v.num_sub_allocs.wire() =~= w.subrange(8, 12));
    assert(b.subrange(o + 8, o + 12) =~= w.subrange(8, 12));
    law_word32(v.num_sub_allocs, b, o + 8);
    assert(v.end_offset.wire() =~= w.subrange(12, 16));
    assert(b.subrange(o + 12, o + 16) =~= w.subrange(12, 16));
    law_word32(v.end_offset, b, o + 12);
}

/// Law: where the fields of [`netvsp::Nvsp1MsgSendRecvBufComplete`] stand.
pub proof fn law_nvsp_nvsp1_msg_send_recv_buf_complete_layout(v: netvsp::Nvsp1MsgSendRecvBufComplete, b: Seq<u8>, o: int)
    requires
        0 <= o,
        o + 24 <= b.len(),
        b.subrange(o, o + 24) == v.wire(),
    ensures
        <netvsp::Nvsp1MsgSendRecvBufComplete as Wire>::wire_len() == 24,
        word32(b, o) == v.status,
        word32(b, o + 4) == v.num_sections,
        word32(b, o + 8) == v.sections@[0].offset,
        word32(b, o + 12) == v.sections@[0].sub_alloc_size,
        word32(b, o + 16) == v.sections@[0].num_sub_allocs,
        word32(b, o + 20) == v.sections@[0].end_offset,
{
    v.status.lemma_wire_len();
    v.num_sections.lemma_wire_len();
    v.sections.lemma_wire_len();
    let w = v.wire();
    assert(w =~= b.subrange(o, o + 24));
    assert(v.status.wire() =~= w.subrange(0, 4));
    assert(b.subrange(o, o + 4) =~= w.subrange(0, 4));
    law_word32(v.status, b, o);
    assert(v.num_sections.wire() =~= w.subrange(4, 8));
    assert(b.subrange(o + 4, o + 8) =~= w.subrange(4, 8));
    law_word32(v.num_sections, b, o + 4);
    assert(v.sections.wire() =~= w.subrange(8, 24));
    assert(b.subrange(o + 8, o + 24) =~= w.subrange(8, 24));
    v.sections@[0].lemma_wire_len();
    assert(v.sections.wire().subrange(0, 16) =~= v.sections@[0].wire());
    assert(b.subrange(o + 8, o + 24) =~= v.sections.wire().subrange(0, 16));
    law_nvsp_nvsp1_receive_buffer_section_layout(v.sections@[0], b, o + 8);
}

/// Law: where the fields of [`netvsp::Nvsp1MsgRevokeRecvBuf`] stand.
pub proof fn law_nvsp_nvsp1_msg_revoke_recv_buf_layout(v: netvsp::Nvsp1MsgRevokeRecvBuf, b: Seq<u8>, o: int)
    requires
        0 <= o,
        o + 4 <= b.len(),
        b.subrange(o, o + 4) == v.wire(),
    ensures
        <netvsp::Nvsp1MsgRevokeRecvBuf as Wire>::wire_len() == 4,
        word16(b, o) == v.id,
        word16(b, o + 2) == v.pad,
{
    v.id.lemma_wire_len();
    v.pad.lemma_wire_len();
    let w = v.wire();
    assert(w =~= b.subrange(o, o + 4));
    assert(v.id.wire() =~= w.subrange(0, 2));
    assert(b.subrange(o, o + 2) =~= w.subrange(0, 2));
    law_word16(v.id, b, o);
    assert(v.pad.wire() =~= w.subrange(2, 4));
    assert(b.subrange(o + 2, o + 4) =~= w.subrange(2, 4));
    law_word16(v.pad, b, o + 2);
}

/// Law: where the fields of [`netvsp::Nvsp1MsgSendSendBufComplete`] stand.
pub proof fn law_nvsp_nvsp1_msg_send_send_buf_complete_layout(v: netvsp::Nvsp1MsgSendSendBufComplete, b: Seq<u8>, o: int)
    requires
        0 <= o,
        o + 8 <= b.len(),
        b.subrange(o, o + 8) == v.wire(),
    ensures
        <netvsp::Nvsp1MsgSendSendBufComplete as Wire>::wire_len() == 8,
        word32(b, o) == v.status,
        word32(b, o + 4) == v.section_size,
{
    v.status.lemma_wire_len();
    v.section_size.lemma_wire_len();
    let w = v.wire();
    assert(w =~= b.subrange(o, o + 8));
    assert(v.status.wire() =~= w.subrange(0, 4));
    assert(b.subrange(o, o + 4) =~= w.subrange(0, 4));
    law_word32(v.status, b, o);
    assert(v.section_size.wire() =~= w.subrange(4, 8));
    assert(b.subrange(o + 4, o + 8) =~= w.subrange(4, 8));
    law_word32(v.section_size, b, o + 4);
}

/// Law: where the fields of [`netvsp::Nvsp1MsgSendRndisPacket`] stand.
pub proof fn law_nvsp_nvsp1_msg_send_rndis_packet_layout(v: netvsp::Nvsp1MsgSendRndisPacket, b: Seq<u8>, o: int)
    requires
        0 <= o,
        o + 12 <= b.len(),
        b.subrange(o, o + 12) == v.wire(),
    ensures
        <netvsp::Nvsp1MsgSendRndisPacket as Wire>::wire_len() == 12,
        word32(b, o) == v.channel_type,
        word32(b, o + 4) == v.send_buf_section_index,
        word32(b, o + 8) == v.send_buf_section_size,
{
    v.channel_type.lemma_wire_len();
    v.send_buf_section_index.lemma_wire_len();
    v.send_buf_section_size.lemma_wire_len();
    let w = v.wire();
    assert(w =~= b.subrange(o, o + 12));
    assert(v.channel_type.wire() =~= w.subrange(0, 4));
    assert(b.subrange(o, o + 4) =~= w.subrange(0, 4));
    law_word32(v.channel_type, b, o);
    assert(v.send_buf_section_index.wire() =~= w.subrange(4, 8));
    assert(b.subrange(o + 4, o + 8) =~= w.subrange(4, 8));
    law_word32(v.send_buf_section_index, b, o + 4);
    assert(v.send_buf_section_size.wire() =~= w.subrange(8, 12));
    assert(b.subrange(o + 8, o + 12) =~= w.subrange(8, 12));
    law_word32(v.send_buf_section_size, b, o + 8);
}

/// Law: where the fields of [`netvsp::Nvsp1MsgSendRndisPacketComplete`] stand.
pub proof fn law_nvsp_nvsp1_msg_send_rndis_packet_complete_layout(v: netvsp::Nvsp1MsgSendRndisPacketComplete, b: Seq<u8>, o: int)
    requires
        0 <= o,
        o + 4 <= b.len(),
        b.subrange(o, o + 4) == v.wire(),
    ensures
        <netvsp::Nvsp1MsgSendRndisPacketComplete as Wire>::wire_len() == 4,
        word32(b, o) == v.status,
{
    v.status.lemma_wire_len();
    let w = v.wire();
    assert(w =~= b.subrange(o, o + 4));
    assert(v.status.wire() =~= w.subrange(0, 4));
    assert(b.subrange(o, o + 4) =~= w.subrange(0, 4));
    law_word32(v.status, b, o);
}

/// Law: where the fields of [`netvsp::NdisCapabilities`] stand.
pub proof fn law_nvsp_ndis_capabilities_layout(v: netvsp::NdisCapabilities, b: Seq<u8>, o: int)
    requires
        0 <= o,
        o + 8 <= b.len(),
        b.subrange(o, o + 8) == v.wire(),
    ensures
        <netvsp::NdisCapabilities as Wire>::wire_len() == 8,
        word64(b, o) == v.0,
{
    v.0.lemma_wire_len();
    let w = v.wire();
    assert(w =~= b.subrange(o, o + 8));
    assert(v.0.wire() =~= w.subrange(0, 8));
    assert(b.subrange(o, o + 8) =~= w.subrange(0, 8));
    law_word64(v.0, b, o);
}

/// Law: where the fields of [`netvsp::Nvsp2MsgSendNdisConfig`] stand.
pub proof fn law_nvsp_nvsp2_msg_send_ndis_config_layout(v: netvsp::Nvsp2MsgSendNdisConfig, b: Seq<u8>, o: int)
    requires
        0 <= o,
        o + 16 <= b.len(),
        b.subrange(o, o + 16) == v.wire(),
    ensures
        <netvsp::Nvsp2MsgSendNdisConfig as Wire>::wire_len() == 16,
        word32(b, o) == v.mtu,
        word32(b, o + 4) == v.reserved,
        word64(b, o + 8) == v.capabilities,
{
    v.mtu.lemma_wire_len();
    v.reserved.lemma_wire_len();
    v.capabilities.lemma_wire_len();
    let w = v.wire();
    assert(w =~= b.subrange(o, o + 16));
    assert(v.mtu.wire() =~= w.subrange(0, 4));
    assert(b.subrange(o, o + 4) =~= w.subrange(0, 4));
    law_word32(v.mtu, b, o);
    assert(v.reserved.wire() =~= w.subrange(4, 8));
    assert(b.subrange(o + 4, o + 8) =~= w.subrange(4, 8));
    law_word32(v.reserved, b, o + 4);
    assert(v.capabilities.wire() =~= w.subrange(8, 16));
    assert(b.subrange(o + 8, o + 16) =~= w.subrange(8, 16));
    law_word64(v.capabilities, b, o + 8);
}

/// Law: where the fields of [`keyboard::MessageHeader`] stand.
pub proof fn law_keyboard_message_header_layout(v: keyboard::MessageHeader, b: Seq<u8>, o: int)
    requires
        0 <= o,
        o + 4 <= b.len(),
        b.subrange(o, o + 4) == v.wire(),
    ensures
        <keyboard::MessageHeader as Wire>::wire_len() == 4,
        word32(b, o) == v.message_type,
{
    v.message_type.lemma_wire_len();
    let w = v.wire();
    assert(w =~= b.subrange(o, o + 4));
    assert(v.message_type.wire() =~= w.subrange(0, 4));
    assert(b.subrange(o, o + 4) =~= w.subrange(0, 4));
    law_word32(v.message_type, b, o);
}

/// Law: where the fields of [`keyboard::MessageProtocolRequest`] stand.
pub proof fn law_keyboard_message_protocol_request_layout(v: keyboard::MessageProtocolRequest, b: Seq<u8>, o: int)
    requires
        0 <= o,
        o + 4 <= b.len(),
        b.subrange(o, o + 4) == v.wire(),
    ensures
        <keyboard::MessageProtocolRequest as Wire>::wire_len() == 4,
        word32(b, o) == v.version,
{
    v.version.lemma_wire_len();
    let w = v.wire();
    assert(w =~= b.subrange(o, o + 4));
    assert(v.version.wire() =~= w.subrange(0, 4));
    assert(b.subrange(o, o + 4) =~= w.subrange(0, 4));
    law_word32(v.version, b, o);
}

/// Law: where the fields of [`keyboard::MessageProtocolResponse`] stand.
pub proof fn law_keyboard_message_protocol_response_layout(v: keyboard::MessageProtocolResponse, b: Seq<u8>, o: int)
    requires
        0 <= o,
        o + 4 <= b.len(),
        b.subrange(o, o + 4) == v.wire(),
    ensures
        <keyboard::MessageProtocolResponse as Wire>::wire_len() == 4,
        word32(b, o) == v.accepted,
{
    v.accepted.lemma_wire_len();
    let w = v.wire();
    assert(w =~= b.subrange(o, o + 4));
    assert(v.accepted.wire() =~= w.subrange(0, 4));
    assert(b.subrange(o, o + 4) =~= w.subrange(0, 4));
    law_word32(v.accepted, b, o);
}

/// Law: where the fields of [`keyboard::MessageKeystroke`] stand.
pub proof fn law_keyboard_message_keystroke_layout(v: keyboard::MessageKeystroke, b: Seq<u8>, o: int)
    requires
        0 <= o,
        o + 8 <= b.len(),
        b.subrange(o, o + 8) == v.wire(),
    ensures
        <keyboard::MessageKeystroke as Wire>::wire_len() == 8,
        word16(b, o) == v.make_code,
        word16(b, o + 2) == v.padding,
        word32(b, o + 4) == v.flags,
{
    v.make_code.lemma_wire_len();
    v.padding.lemma_wire_len();
    v.flags.lemma_wire_len();
    let w = v.wire();
    assert(w =~= b.subrange(o, o + 8));
    assert(v.make_code.wire() =~= w.subrange(0, 2));
    assert(b.subrange(o, o + 2) =~= w.subrange(0, 2));
    law_word16(v.make_code, b, o);
    assert(v.padding.wire() =~= w.subrange(2, 4));
    assert(b.subrange(o + 2, o + 4) =~= w.subrange(2, 4));
    law_word16(v.padding, b, o + 2);
    assert(v.flags.wire() =~= w.subrange(4, 8));
    assert(b.subrange(o + 4, o + 8) =~= w.subrange(4, 8));
    law_word32(v.flags, b, o + 4);
}

/// Law: where the fields of [`keyboard::MessageLedIndicatorsState`] stand.
pub proof fn law_keyboard_message_led_indicators_state_layout(v: keyboard::MessageLedIndicatorsState, b: Seq<u8>, o: int)
    requires
        0 <= o,
        o + 4 <= b.len(),
        b.subrange(o, o + 4) == v.wire(),
    ensures
        <keyboard::MessageLedIndicatorsState as Wire>::wire_len() == 4,
        word16(b, o) == v.led_flags,
        word16(b, o + 2) == v.padding,
{
    v.led_flags.lemma_wire_len();
    v.padding.lemma_wire_len();
    let w = v.wire();
    assert(w =~= b.subrange(o, o + 4));
    assert(v.led_flags.wire() =~= w.subrange(0, 2));
    assert(b.subrange(o, o + 2) =~= w.subrange(0, 2));
    law_word16(v.led_flags, b, o);
    assert(v.padding.wire() =~= w.subrange(2, 4));
    assert(b.subrange(o + 2, o + 4) =~= w.subrange(2, 4));
    law_word16(v.padding, b, o + 2);
}

/// Law: where the fields of [`packet::Footer`] stand.
pub proof fn law_packet_footer_layout(v: packet::Footer, b: Seq<u8>, o: int)
    requires
        0 <= o,
        o + 8 <= b.len(),
        b.subrange(o, o + 8) == v.wire(),
    ensures
        <packet::Footer as Wire>::wire_len() == 8,
        word32(b, o) == v.reserved,
        word32(b, o + 4) == v.offset,
{
    v.reserved.lemma_wire_len();
    v.offset.lemma_wire_len();
    let w = v.wire();
    assert(w =~= b.subrange(o, o + 8));
    assert(v.reserved.wire() =~= w.subrange(0, 4));
    assert(b.subrange(o, o + 4) =~= w.subrange(0, 4));
    law_word32(v.reserved, b, o);
    assert(v.offset.wire() =~= w.subrange(4, 8));
    assert(b.subrange(o + 4, o + 8) =~= w.subrange(4, 8));
    law_word32(v.offset, b, o + 4);
}

} // verus!
