//! Small values: flags, ids and packed words.
use crate::devices::netvsp::NdisCapabilities;
use crate::error::Error;
use crate::error::TmkError;
use crate::hv::HvRegisterValue;
use crate::hypercalls::HypercallConfig;
use crate::laws::layout;
use crate::protocol::make_version;
use crate::protocol::ConnectionId;
use crate::protocol::FeatureFlags;
use crate::protocol::Guid;
use crate::protocol::HvsockUserDefinedParameters;
use crate::protocol::InitiateContact;
use crate::protocol::InitiateContact2;
use crate::protocol::MessageHeader;
use crate::protocol::MessageType;
use crate::protocol::OfferFlags;
use crate::protocol::OpenChannel;
use crate::protocol::OpenChannel2;
use crate::protocol::OpenChannelFlags;
use crate::protocol::PacketFlags;
use crate::protocol::TargetInfo;
use crate::protocol::TlConnectRequest;
use crate::protocol::TlConnectRequest2;
use crate::protocol::UserDefinedData;
use crate::protocol::Vtl;
use crate::wire;
use vstd::prelude::*;

verus! {

/// Law: flags go to numbers and back unchanged, and start with none set.
pub proof fn law_flags_as_numbers(
    n: u32,
    m: u16,
    a: FeatureFlags,
    b: u32,
    c: OfferFlags,
    d: u16,
    e: OpenChannelFlags,
    f: u16,
    g: PacketFlags,
    h: u16,
    none: FeatureFlags,
)
    requires
        call_ensures(FeatureFlags::from_bits, (n,), a),
        call_ensures(FeatureFlags::into_bits, (a,), b),
        call_ensures(OfferFlags::from_bits, (m,), c),
        call_ensures(OfferFlags::into_bits, (c,), d),
        call_ensures(OpenChannelFlags::from_bits, (m,), e),
        call_ensures(OpenChannelFlags::into_bits, (e,), f),
        call_ensures(PacketFlags::from_bits, (m,), g),
        call_ensures(PacketFlags::into_bits, (g,), h),
        call_ensures(FeatureFlags::new, (), none),
    ensures
        a.0 == n,
        b == n,
        c.0 == m,
        d == m,
        e.0 == m,
        f == m,
        g.0 == m,
        h == m,
        none.0 == 0,
{
}

/// Law: the guest offers the four lowest features and no others.
pub proof fn law_features_supported(r: FeatureFlags)
    requires
        call_ensures(FeatureFlags::supported, (), r),
    ensures
        r.0 == 1 + 2 + 4 + 8,
{
}

/// Law: one set of flags contains another exactly if it has every flag that
/// the other has.
pub proof fn law_features_contained(f: FeatureFlags, g: FeatureFlags, r: bool, i: u32)
    requires
        call_ensures(FeatureFlags::contains, (&f, g), r),
        i < 32,
    ensures
        r ==> (g.0 >> i & 1 == 1 ==> f.0 >> i & 1 == 1),
        r == (f.0 | g.0 == f.0),
        f == g || g.0 == 0 ==> r,
{
    let x = f.0;
    let y = g.0;
    assert(x & y == y ==> (y >> i & 1 == 1 ==> x >> i & 1 == 1)) by (bit_vector)
        requires
            i < 32,
    ;
    assert(x & x == x && x & 0 == 0 && (x & y == y) == (x | y == x)) by (bit_vector);
}

/// Law: a version word has the major number in its upper half and the minor
/// number in its lower.
pub proof fn law_version_word(major: u16, minor: u16, r: u32)
    requires
        call_ensures(make_version, (major, minor), r),
    ensures
        r / 0x1_0000 == major,
        r % 0x1_0000 == minor,
{
}

/// Law: trust levels are numbered from 0.
pub proof fn law_trust_level(v: Vtl, r: u8)
    requires
        call_ensures(Vtl::raw, (v,), r),
    ensures
        v == Vtl::Vtl0 <==> r == 0,
        v == Vtl::Vtl1 <==> r == 1,
        v == Vtl::Vtl2 <==> r == 2,
{
}

/// Law: a composite connection id has the channel in its lowest twelve bits,
/// the interrupt source in the next four, and the trust level above.
pub proof fn law_connection_id(channel_id: u32, vtl: Vtl, sint: u8, r: ConnectionId, level: u8)
    requires
        call_ensures(ConnectionId::new, (channel_id, vtl, sint), r),
        call_ensures(Vtl::raw, (vtl,), level),
        channel_id < 0x1000,
        sint < 16,
    ensures
        r.0 == channel_id + 0x1000 * sint + 0x1_0000 * level,
{
    let s = sint as u32;
    let l = level as u32;
    assert(channel_id | s << 12u32 | l << 16u32 == channel_id + 0x1000 * s + 0x1_0000 * l)
        by (bit_vector)
        requires
            channel_id < 0x1000,
            s < 16,
            l < 4,
    ;
}

/// Law: the source of a target is its lowest byte; setting it keeps the rest.
pub proof fn law_target_source(t: TargetInfo, sint: u8, a: TargetInfo, r: u8)
    requires
        call_ensures(TargetInfo::with_sint, (t, sint), a),
        call_ensures(TargetInfo::sint, (&a,), r),
    ensures
        r == sint,
        a.0 % 256 == sint,
        a.0 / 256 == t.0 / 256,
{
}

/// Law: the trust level of a target is its second byte; setting it keeps the
/// rest.
pub proof fn law_target_level(t: TargetInfo, vtl: u8, a: TargetInfo, r: u8)
    requires
        call_ensures(TargetInfo::with_vtl, (t, vtl), a),
        call_ensures(TargetInfo::vtl, (&a,), r),
    ensures
        r == vtl,
        a.0 % 256 == t.0 % 256,
        a.0 / 256 % 256 == vtl,
        a.0 / 0x1_0000 == t.0 / 0x1_0000,
{
}

/// Law: the flags of a target are its upper half; setting them keeps the
/// rest.
pub proof fn law_target_flags(t: TargetInfo, flags: u32, a: TargetInfo, r: u32)
    requires
        call_ensures(TargetInfo::with_feature_flags, (t, flags), a),
        call_ensures(TargetInfo::feature_flags, (&a,), r),
    ensures
        r == flags,
        a.0 % 0x1_0000_0000 == t.0 % 0x1_0000_0000,
        a.0 / 0x1_0000_0000 == flags,
{
}

/// Law: a header is made of a type and a zero word.
pub proof fn law_header(ty: MessageType, h: MessageHeader, r: MessageType)
    requires
        call_ensures(MessageHeader::new, (ty,), h),
        call_ensures(MessageHeader::message_type, (&h,), r),
    ensures
        h.message_type == ty,
        h.padding == 0,
        r == ty,
{
}

/// Law: the parameters of a socket are those of a byte pipe, revision 1.
pub proof fn law_socket_parameters(
    accept: bool,
    container: bool,
    silo: Guid,
    r: HvsockUserDefinedParameters,
)
    requires
        call_ensures(HvsockUserDefinedParameters::new, (accept, container, silo), r),
    ensures
        r.pipe_params.pipe_type.0 == 0,
        r.is_for_guest_accept == 1 <==> accept,
        r.is_for_guest_accept == 0 <==> !accept,
        r.is_for_guest_container == 1 <==> container,
        r.is_for_guest_container == 0 <==> !container,
        r.version.0 == 1,
        r.silo_id == silo,
        r._padding@ == seq![0u8, 0u8],
{
}

/// Law: the first 28 bytes of an offer's data are the parameters of a socket.
pub proof fn law_data_as_socket(d: UserDefinedData, r: HvsockUserDefinedParameters)
    requires
        call_ensures(UserDefinedData::as_hvsock_params, (&d,), r),
    ensures
        layout::word32(d.0@, 0) == r.pipe_params.pipe_type.0,
        d.0@[4] == r.is_for_guest_accept,
        d.0@[5] == r.is_for_guest_container,
        layout::word32(d.0@, 6) == r.version.0,
        layout::word32(d.0@, 10) == r.silo_id.data1,
        layout::word16(d.0@, 14) == r.silo_id.data2,
        layout::word16(d.0@, 16) == r.silo_id.data3,
{
    layout::law_hvsock_user_defined_parameters_layout(r, d.0@, 0);
}

/// Law: two GUIDs are the same exactly if all their parts are.
pub proof fn law_guid_same(a: Guid, b: Guid, r: bool)
    requires
        call_ensures(Guid::same, (&a, &b), r),
    ensures
        r <==> {
            &&& a.data1 == b.data1
            &&& a.data2 == b.data2
            &&& a.data3 == b.data3
            &&& a.data4@ == b.data4@
        },
{
    if a.data4@ == b.data4@ {
        assert(a.data4 =~= b.data4);
    }
}

/// Law: by default, data and GUIDs are all zero.
pub proof fn law_zero_values(g: Guid, d: UserDefinedData)
    requires
        call_ensures(<Guid as Default>::default, (), g),
        call_ensures(<UserDefinedData as Default>::default, (), d),
    ensures
        g.data1 == 0,
        g.data2 == 0,
        g.data3 == 0,
        forall|i: int| 0 <= i < 8 ==> #[trigger] g.data4@[i] == 0,
        forall|i: int| 0 <= i < 120 ==> #[trigger] d.0@[i] == 0,
{
    crate::laws::decoding::law_guid_decodes(wire::zeros(16));
    assert(wire::zeros(16).subrange(0, 16) =~= wire::zeros(16));
    layout::law_guid_layout(g, wire::zeros(16), 0);
}

/// Law: the long form of a request keeps the short one, and adds zeros.
pub proof fn law_long_forms(
    a: InitiateContact,
    b: InitiateContact2,
    c: OpenChannel,
    d: OpenChannel2,
    e: TlConnectRequest,
    f: TlConnectRequest2,
)
    requires
        call_ensures(<InitiateContact2 as From<InitiateContact>>::from, (a,), b),
        call_ensures(<OpenChannel2 as From<OpenChannel>>::from, (c,), d),
        call_ensures(<TlConnectRequest2 as From<TlConnectRequest>>::from, (e,), f),
    ensures
        b.initiate_contact == a,
        b.client_id.data1 == 0 && b.client_id.data2 == 0 && b.client_id.data3 == 0,
        d.open_channel == c,
        d.connection_id == 0,
        d.event_flag == 0,
        d.flags.0 == 0,
        f.base == e,
        f.silo_id.data1 == 0 && f.silo_id.data2 == 0 && f.silo_id.data3 == 0,
{
    crate::laws::decoding::law_guid_decodes(wire::zeros(16));
    assert(wire::zeros(16).subrange(0, 16) =~= wire::zeros(16));
    layout::law_guid_layout(Guid::zero(), wire::zeros(16), 0);
}

/// Law: a number in a register is its lower half.
pub proof fn law_register_value(n: u64, r: HvRegisterValue, m: u64)
    requires
        call_ensures(HvRegisterValue::from_u64, (n,), r),
        call_ensures(HvRegisterValue::as_u64, (&r,), m),
    ensures
        r.low == n,
        r.high == 0,
        m == n,
{
}

/// Law: a hypercall is neither fast nor repeated unless asked to be.
pub proof fn law_plain_call(c: HypercallConfig)
    requires
        call_ensures(<HypercallConfig as Default>::default, (), c),
    ensures
        c.rep_count is None,
        !c.fast_call,
{
}

/// Law: an error of the hypervisor stays what it was.
pub proof fn law_hypervisor_error(e: TmkError, r: Error)
    requires
        call_ensures(<Error as From<TmkError>>::from, (e,), r),
    ensures
        r == Error::Hypercall(e),
{
}

/// Law: adding capabilities keeps those that were there, and adds the others.
pub proof fn law_capabilities_added(
    c: NdisCapabilities,
    more: u64,
    r: NdisCapabilities,
    d: &mut NdisCapabilities,
    i: u64,
)
    requires
        call_ensures(NdisCapabilities::bitor, (c, more), r),
        call_ensures(NdisCapabilities::bitor_assign, (d, more), ()),
        i < 64,
    ensures
        r.0 >> i & 1 == 1 <==> c.0 >> i & 1 == 1 || more >> i & 1 == 1,
        final(d).0 >> i & 1 == 1 <==> old(d).0 >> i & 1 == 1 || more >> i & 1 == 1,
{
    let x = c.0;
    let y = old(d).0;
    assert(((x | more) >> i & 1 == 1) == (x >> i & 1 == 1 || more >> i & 1 == 1)) by (bit_vector)
        requires
            i < 64,
    ;
    assert(((y | more) >> i & 1 == 1) == (y >> i & 1 == 1 || more >> i & 1 == 1)) by (bit_vector)
        requires
            i < 64,
    ;
}

/// Law: a packet asks for a completion once it is told to.
pub proof fn law_completion_requested(f: &mut PacketFlags, v: bool)
    requires
        call_ensures(PacketFlags::set_request_completion, (f, v), ()),
    ensures
        v == (final(f).0 % 2 == 1),
        final(f).0 / 2 == old(f).0 / 2,
{
    lemma_bits16(old(f).0);
}

/// What setting, clearing and testing a bit do to a number.
proof fn lemma_bits32(x: u32)
    ensures
        (x & 0x1 != 0) == (x / 0x1 % 2 == 1),
        (x | 0x1) == (if x / 0x1 % 2 == 1 { x as int } else { x + 0x1 }),
        (x & !0x1u32) == (if x / 0x1 % 2 == 1 { x - 0x1 } else { x as int }),
        (x & 0x2 != 0) == (x / 0x2 % 2 == 1),
        (x | 0x2) == (if x / 0x2 % 2 == 1 { x as int } else { x + 0x2 }),
        (x & !0x2u32) == (if x / 0x2 % 2 == 1 { x - 0x2 } else { x as int }),
        (x & 0x4 != 0) == (x / 0x4 % 2 == 1),
        (x | 0x4) == (if x / 0x4 % 2 == 1 { x as int } else { x + 0x4 }),
        (x & !0x4u32) == (if x / 0x4 % 2 == 1 { x - 0x4 } else { x as int }),
        (x & 0x8 != 0) == (x / 0x8 % 2 == 1),
        (x | 0x8) == (if x / 0x8 % 2 == 1 { x as int } else { x + 0x8 }),
        (x & !0x8u32) == (if x / 0x8 % 2 == 1 { x - 0x8 } else { x as int }),
        (x & 0x10 != 0) == (x / 0x10 % 2 == 1),
        (x | 0x10) == (if x / 0x10 % 2 == 1 { x as int } else { x + 0x10 }),
        (x & !0x10u32) == (if x / 0x10 % 2 == 1 { x - 0x10 } else { x as int }),
        (x & 0x20 != 0) == (x / 0x20 % 2 == 1),
        (x | 0x20) == (if x / 0x20 % 2 == 1 { x as int } else { x + 0x20 }),
        (x & !0x20u32) == (if x / 0x20 % 2 == 1 { x - 0x20 } else { x as int }),
        (x & 0x40 != 0) == (x / 0x40 % 2 == 1),
        (x | 0x40) == (if x / 0x40 % 2 == 1 { x as int } else { x + 0x40 }),
        (x & !0x40u32) == (if x / 0x40 % 2 == 1 { x - 0x40 } else { x as int }),
{
    assert(((x & 0x1 != 0) == (x / 0x1 % 2 == 1))
        && ((x | 0x1) == (if x / 0x1 % 2 == 1 { x as int } else { x + 0x1 }))
        && ((x & !0x1u32) == (if x / 0x1 % 2 == 1 { x - 0x1 } else { x as int })))
        by (bit_vector);
    assert(((x & 0x2 != 0) == (x / 0x2 % 2 == 1))
        && ((x | 0x2) == (if x / 0x2 % 2 == 1 { x as int } else { x + 0x2 }))
        && ((x & !0x2u32) == (if x / 0x2 % 2 == 1 { x - 0x2 } else { x as int })))
        by (bit_vector);
    assert(((x & 0x4 != 0) == (x / 0x4 % 2 == 1))
        && ((x | 0x4) == (if x / 0x4 % 2 == 1 { x as int } else { x + 0x4 }))
        && ((x & !0x4u32) == (if x / 0x4 % 2 == 1 { x - 0x4 } else { x as int })))
        by (bit_vector);
    assert(((x & 0x8 != 0) == (x / 0x8 % 2 == 1))
        && ((x | 0x8) == (if x / 0x8 % 2 == 1 { x as int } else { x + 0x8 }))
        && ((x & !0x8u32) == (if x / 0x8 % 2 == 1 { x - 0x8 } else { x as int })))
        by (bit_vector);
    assert(((x & 0x10 != 0) == (x / 0x10 % 2 == 1))
        && ((x | 0x10) == (if x / 0x10 % 2 == 1 { x as int } else { x + 0x10 }))
        && ((x & !0x10u32) == (if x / 0x10 % 2 == 1 { x - 0x10 } else { x as int })))
        by (bit_vector);
    assert(((x & 0x20 != 0) == (x / 0x20 % 2 == 1))
        && ((x | 0x20) == (if x / 0x20 % 2 == 1 { x as int } else { x + 0x20 }))
        && ((x & !0x20u32) == (if x / 0x20 % 2 == 1 { x - 0x20 } else { x as int })))
        by (bit_vector);
    assert(((x & 0x40 != 0) == (x / 0x40 % 2 == 1))
        && ((x | 0x40) == (if x / 0x40 % 2 == 1 { x as int } else { x + 0x40 }))
        && ((x & !0x40u32) == (if x / 0x40 % 2 == 1 { x - 0x40 } else { x as int })))
        by (bit_vector);
}

/// What setting, clearing and testing a bit do to a number.
proof fn lemma_bits16(x: u16)
    ensures
        (x & 0x1 != 0) == (x / 0x1 % 2 == 1),
        (x | 0x1) == (if x / 0x1 % 2 == 1 { x as int } else { x + 0x1 }),
        (x & !0x1u16) == (if x / 0x1 % 2 == 1 { x - 0x1 } else { x as int }),
        (x & 0x2 != 0) == (x / 0x2 % 2 == 1),
        (x | 0x2) == (if x / 0x2 % 2 == 1 { x as int } else { x + 0x2 }),
        (x & !0x2u16) == (if x / 0x2 % 2 == 1 { x - 0x2 } else { x as int }),
        (x & 0x4 != 0) == (x / 0x4 % 2 == 1),
        (x | 0x4) == (if x / 0x4 % 2 == 1 { x as int } else { x + 0x4 }),
        (x & !0x4u16) == (if x / 0x4 % 2 == 1 { x - 0x4 } else { x as int }),
        (x & 0x10 != 0) == (x / 0x10 % 2 == 1),
        (x | 0x10) == (if x / 0x10 % 2 == 1 { x as int } else { x + 0x10 }),
        (x & !0x10u16) == (if x / 0x10 % 2 == 1 { x - 0x10 } else { x as int }),
        (x & 0x2000 != 0) == (x / 0x2000 % 2 == 1),
        (x | 0x2000) == (if x / 0x2000 % 2 == 1 { x as int } else { x + 0x2000 }),
        (x & !0x2000u16) == (if x / 0x2000 % 2 == 1 { x - 0x2000 } else { x as int }),
{
    assert(((x & 0x1 != 0) == (x / 0x1 % 2 == 1))
        && ((x | 0x1) == (if x / 0x1 % 2 == 1 { x as int } else { x + 0x1 }))
        && ((x & !0x1u16) == (if x / 0x1 % 2 == 1 { x - 0x1 } else { x as int })))
        by (bit_vector);
    assert(((x & 0x2 != 0) == (x / 0x2 % 2 == 1))
        && ((x | 0x2) == (if x / 0x2 % 2 == 1 { x as int } else { x + 0x2 }))
        && ((x & !0x2u16) == (if x / 0x2 % 2 == 1 { x - 0x2 } else { x as int })))
        by (bit_vector);
    assert(((x & 0x4 != 0) == (x / 0x4 % 2 == 1))
        && ((x | 0x4) == (if x / 0x4 % 2 == 1 { x as int } else { x + 0x4 }))
        && ((x & !0x4u16) == (if x / 0x4 % 2 == 1 { x - 0x4 } else { x as int })))
        by (bit_vector);
    assert(((x & 0x10 != 0) == (x / 0x10 % 2 == 1))
        && ((x | 0x10) == (if x / 0x10 % 2 == 1 { x as int } else { x + 0x10 }))
        && ((x & !0x10u16) == (if x / 0x10 % 2 == 1 { x - 0x10 } else { x as int })))
        by (bit_vector);
    assert(((x & 0x2000 != 0) == (x / 0x2000 % 2 == 1))
        && ((x | 0x2000) == (if x / 0x2000 % 2 == 1 { x as int } else { x + 0x2000 }))
        && ((x & !0x2000u16) == (if x / 0x2000 % 2 == 1 { x - 0x2000 } else { x as int })))
        by (bit_vector);
}

/// Law: flag `guest_specified_signal_parameters` is bit 0, and setting it leaves the other bits alone.
pub proof fn law_feature_guest_specified_signal_parameters(f: FeatureFlags, a: bool, v: bool, g: FeatureFlags)
    requires
        call_ensures(FeatureFlags::guest_specified_signal_parameters, (&f,), a),
        call_ensures(FeatureFlags::with_guest_specified_signal_parameters, (f, v), g),
    ensures
        a == (f.0 / 0x1 % 2 == 1),
        v == (g.0 / 0x1 % 2 == 1),
        a == v ==> g == f,
        !a && v ==> g.0 == f.0 + 0x1,
        a && !v ==> g.0 == f.0 - 0x1,
{
    lemma_bits32(f.0);
}

/// Law: flag `channel_interrupt_redirection` is bit 1, and setting it leaves the other bits alone.
pub proof fn law_feature_channel_interrupt_redirection(f: FeatureFlags, a: bool, v: bool, g: FeatureFlags)
    requires
        call_ensures(FeatureFlags::channel_interrupt_redirection, (&f,), a),
        call_ensures(FeatureFlags::with_channel_interrupt_redirection, (f, v), g),
    ensures
        a == (f.0 / 0x2 % 2 == 1),
        v == (g.0 / 0x2 % 2 == 1),
        a == v ==> g == f,
        !a && v ==> g.0 == f.0 + 0x2,
        a && !v ==> g.0 == f.0 - 0x2,
{
    lemma_bits32(f.0);
}

/// Law: flag `modify_connection` is bit 2, and setting it leaves the other bits alone.
pub proof fn law_feature_modify_connection(f: FeatureFlags, a: bool, v: bool, g: FeatureFlags)
    requires
        call_ensures(FeatureFlags::modify_connection, (&f,), a),
        call_ensures(FeatureFlags::with_modify_connection, (f, v), g),
    ensures
        a == (f.0 / 0x4 % 2 == 1),
        v == (g.0 / 0x4 % 2 == 1),
        a == v ==> g == f,
        !a && v ==> g.0 == f.0 + 0x4,
        a && !v ==> g.0 == f.0 - 0x4,
{
    lemma_bits32(f.0);
}

/// Law: flag `client_id` is bit 3, and setting it leaves the other bits alone.
pub proof fn law_feature_client_id(f: FeatureFlags, a: bool, v: bool, g: FeatureFlags)
    requires
        call_ensures(FeatureFlags::client_id, (&f,), a),
        call_ensures(FeatureFlags::with_client_id, (f, v), g),
    ensures
        a == (f.0 / 0x8 % 2 == 1),
        v == (g.0 / 0x8 % 2 == 1),
        a == v ==> g == f,
        !a && v ==> g.0 == f.0 + 0x8,
        a && !v ==> g.0 == f.0 - 0x8,
{
    lemma_bits32(f.0);
}

/// Law: flag `confidential_channels` is bit 4, and setting it leaves the other bits alone.
pub proof fn law_feature_confidential_channels(f: FeatureFlags, a: bool, v: bool, g: FeatureFlags)
    requires
        call_ensures(FeatureFlags::confidential_channels, (&f,), a),
        call_ensures(FeatureFlags::with_confidential_channels, (f, v), g),
    ensures
        a == (f.0 / 0x10 % 2 == 1),
        v == (g.0 / 0x10 % 2 == 1),
        a == v ==> g == f,
        !a && v ==> g.0 == f.0 + 0x10,
        a && !v ==> g.0 == f.0 - 0x10,
{
    lemma_bits32(f.0);
}

/// Law: flag `pause_resume` is bit 5, and setting it leaves the other bits alone.
pub proof fn law_feature_pause_resume(f: FeatureFlags, a: bool, v: bool, g: FeatureFlags)
    requires
        call_ensures(FeatureFlags::pause_resume, (&f,), a),
        call_ensures(FeatureFlags::with_pause_resume, (f, v), g),
    ensures
        a == (f.0 / 0x20 % 2 == 1),
        v == (g.0 / 0x20 % 2 == 1),
        a == v ==> g == f,
        !a && v ==> g.0 == f.0 + 0x20,
        a && !v ==> g.0 == f.0 - 0x20,
{
    lemma_bits32(f.0);
}

/// Law: flag `server_specified_monitor_pages` is bit 6, and setting it leaves the other bits alone.
pub proof fn law_feature_server_specified_monitor_pages(f: FeatureFlags, a: bool, v: bool, g: FeatureFlags)
    requires
        call_ensures(FeatureFlags::server_specified_monitor_pages, (&f,), a),
        call_ensures(FeatureFlags::with_server_specified_monitor_pages, (f, v), g),
    ensures
        a == (f.0 / 0x40 % 2 == 1),
        v == (g.0 / 0x40 % 2 == 1),
        a == v ==> g == f,
        !a && v ==> g.0 == f.0 + 0x40,
        a && !v ==> g.0 == f.0 - 0x40,
{
    lemma_bits32(f.0);
}

/// Law: flag `enumerate_device_interface` is bit 0, and setting it leaves the other bits alone.
pub proof fn law_offer_enumerate_device_interface(f: OfferFlags, a: bool, v: bool, g: OfferFlags)
    requires
        call_ensures(OfferFlags::enumerate_device_interface, (&f,), a),
        call_ensures(OfferFlags::with_enumerate_device_interface, (f, v), g),
    ensures
        a == (f.0 / 0x1 % 2 == 1),
        v == (g.0 / 0x1 % 2 == 1),
        a == v ==> g == f,
        !a && v ==> g.0 == f.0 + 0x1,
        a && !v ==> g.0 == f.0 - 0x1,
{
    lemma_bits16(f.0);
}

/// Law: flag `confidential_ring_buffer` is bit 1, and setting it leaves the other bits alone.
pub proof fn law_offer_confidential_ring_buffer(f: OfferFlags, a: bool, v: bool, g: OfferFlags)
    requires
        call_ensures(OfferFlags::confidential_ring_buffer, (&f,), a),
        call_ensures(OfferFlags::with_confidential_ring_buffer, (f, v), g),
    ensures
        a == (f.0 / 0x2 % 2 == 1),
        v == (g.0 / 0x2 % 2 == 1),
        a == v ==> g == f,
        !a && v ==> g.0 == f.0 + 0x2,
        a && !v ==> g.0 == f.0 - 0x2,
{
    lemma_bits16(f.0);
}

/// Law: flag `confidential_external_memory` is bit 2, and setting it leaves the other bits alone.
pub proof fn law_offer_confidential_external_memory(f: OfferFlags, a: bool, v: bool, g: OfferFlags)
    requires
        call_ensures(OfferFlags::confidential_external_memory, (&f,), a),
        call_ensures(OfferFlags::with_confidential_external_memory, (f, v), g),
    ensures
        a == (f.0 / 0x4 % 2 == 1),
        v == (g.0 / 0x4 % 2 == 1),
        a == v ==> g == f,
        !a && v ==> g.0 == f.0 + 0x4,
        a && !v ==> g.0 == f.0 - 0x4,
{
    lemma_bits16(f.0);
}

/// Law: flag `named_pipe_mode` is bit 4, and setting it leaves the other bits alone.
pub proof fn law_offer_named_pipe_mode(f: OfferFlags, a: bool, v: bool, g: OfferFlags)
    requires
        call_ensures(OfferFlags::named_pipe_mode, (&f,), a),
        call_ensures(OfferFlags::with_named_pipe_mode, (f, v), g),
    ensures
        a == (f.0 / 0x10 % 2 == 1),
        v == (g.0 / 0x10 % 2 == 1),
        a == v ==> g == f,
        !a && v ==> g.0 == f.0 + 0x10,
        a && !v ==> g.0 == f.0 - 0x10,
{
    lemma_bits16(f.0);
}

/// Law: flag `tlnpi_provider` is bit 13, and setting it leaves the other bits alone.
pub proof fn law_offer_tlnpi_provider(f: OfferFlags, a: bool, v: bool, g: OfferFlags)
    requires
        call_ensures(OfferFlags::tlnpi_provider, (&f,), a),
        call_ensures(OfferFlags::with_tlnpi_provider, (f, v), g),
    ensures
        a == (f.0 / 0x2000 % 2 == 1),
        v == (g.0 / 0x2000 % 2 == 1),
        a == v ==> g == f,
        !a && v ==> g.0 == f.0 + 0x2000,
        a && !v ==> g.0 == f.0 - 0x2000,
{
    lemma_bits16(f.0);
}

/// Law: flag `redirect_interrupt` is bit 0, and setting it leaves the other bits alone.
pub proof fn law_open_redirect_interrupt(f: OpenChannelFlags, a: bool, v: bool, g: OpenChannelFlags)
    requires
        call_ensures(OpenChannelFlags::redirect_interrupt, (&f,), a),
        call_ensures(OpenChannelFlags::with_redirect_interrupt, (f, v), g),
    ensures
        a == (f.0 / 0x1 % 2 == 1),
        v == (g.0 / 0x1 % 2 == 1),
        a == v ==> g == f,
        !a && v ==> g.0 == f.0 + 0x1,
        a && !v ==> g.0 == f.0 - 0x1,
{
    lemma_bits16(f.0);
}

/// Law: flag `request_completion` is bit 0, and setting it leaves the other bits alone.
pub proof fn law_packet_request_completion(f: PacketFlags, a: bool, v: bool, g: PacketFlags)
    requires
        call_ensures(PacketFlags::request_completion, (&f,), a),
        call_ensures(PacketFlags::with_request_completion, (f, v), g),
    ensures
        a == (f.0 / 0x1 % 2 == 1),
        v == (g.0 / 0x1 % 2 == 1),
        a == v ==> g == f,
        !a && v ==> g.0 == f.0 + 0x1,
        a && !v ==> g.0 == f.0 - 0x1,
{
    lemma_bits16(f.0);
}

} // verus!
