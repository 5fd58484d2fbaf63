//! The numbers that guest and host agree on.
use crate::devices::keyboard;
use crate::devices::netvsp;
use crate::functions::netvsp as network_program;
use crate::functions::vmbus as bus_program;
use crate::fuzz;
use crate::gpadl;
use crate::hv;
use crate::hypercalls;
use crate::interrupt;
use crate::protocol;
use crate::ring;
use crate::ring_model;
use crate::synic;
use vstd::prelude::*;

verus! {

/// Law: the numbers of the keyboard.
pub proof fn law_keyboard_numbers()
    ensures
        keyboard::VERSION_WIN8 == 0x1_0000,
        keyboard::MESSAGE_PROTOCOL_REQUEST == 1,
        keyboard::MESSAGE_PROTOCOL_RESPONSE == 2,
        keyboard::MESSAGE_EVENT == 3,
        keyboard::MESSAGE_SET_LED_INDICATORS == 4,
        keyboard::KEYSTROKE_IS_UNICODE == 1,
        keyboard::KEYSTROKE_IS_BREAK == 2,
        keyboard::KEYSTROKE_IS_E0 == 4,
        keyboard::KEYSTROKE_IS_E1 == 8,
        keyboard::MAXIMUM_MESSAGE_SIZE == 256,
        keyboard::RECV_BUFFER_SIZE == 264,
        keyboard::PIPE_PACKET_TYPE_DATA == 1,
{
}

/// Law: the numbers of the network device, and how its ring region is laid out.
pub proof fn law_network_numbers()
    ensures
        netvsp::INVALID_PROTOCOL_VERSION == 0xffff_ffff,
        netvsp::NVSP_LEGACY_MESSAGE_SIZE == 0x1c,
        netvsp::NVSP_V61_MESSAGE_SIZE == 0x28,
        netvsp::NETVSC_RECEIVE_BUFFER_ID == 0xcafe,
        netvsp::NETVSC_SEND_BUFFER_ID == 0x0,
        netvsp::NETVSC_INVALID_INDEX == 0xffff_ffff,
        netvsp::NETVSC_MTU_MIN == 68,
        netvsp::NETVSC_RECEIVE_BUFFER_SIZE_LEGACY == 15728640,
        netvsp::RMC_DATA == 0,
        netvsp::RMC_CONTROL == 1,
        netvsp::NdisCapabilities::VMQ == 0x1,
        netvsp::NdisCapabilities::CHIMNEY == 0x2,
        netvsp::NdisCapabilities::SRIOV == 0x4,
        netvsp::NdisCapabilities::IEEE_8021Q == 0x8,
        netvsp::NdisCapabilities::TEAMING == 0x20,
        netvsp::NdisCapabilities::VIRTUAL_SUBNET_ID == 0x40,
        netvsp::NdisCapabilities::RSC_OVER_VMBUS == 0x80,
        netvsp::NdisCapabilities::TIMESTAMP == 0x100,
        netvsp::NdisCapabilities::RELIABLE_CORRELATION_ID == 0x200,
        netvsp::NdisCapabilities::ALLOW_RSC_DISABLED_STATUS == 0x400,
        netvsp::RING_DATA_PAGES == 8,
        netvsp::RING_DATA_BYTES == 32768,
        netvsp::RING_TOTAL_PAGES == 18,
        netvsp::RING_REGION_BYTES == 73728,
        netvsp::SEND_CTRL_OFFSET == 0,
        netvsp::SEND_DATA_OFFSET == 4096,
        netvsp::RECV_CTRL_OFFSET == 36864,
        netvsp::RECV_DATA_OFFSET == 40960,
        netvsp::DEFAULT_MAX_POLLS == 100_000_000,
        netvsp::COMPLETION_BUFFER_SIZE == 520,
        netvsp::RING_REGION_BYTES == 4096 * netvsp::RING_TOTAL_PAGES,
        netvsp::RING_DATA_BYTES == 4096 * netvsp::RING_DATA_PAGES,
        netvsp::RING_TOTAL_PAGES == 2 * (1 + netvsp::RING_DATA_PAGES),
        netvsp::SEND_DATA_OFFSET == netvsp::SEND_CTRL_OFFSET + 4096,
        netvsp::RECV_CTRL_OFFSET == netvsp::SEND_DATA_OFFSET + netvsp::RING_DATA_BYTES,
        netvsp::RECV_DATA_OFFSET == netvsp::RECV_CTRL_OFFSET + 4096,
        netvsp::RECV_DATA_OFFSET + netvsp::RING_DATA_BYTES == netvsp::RING_REGION_BYTES,
{
}

/// Law: the numbers of the messages of the network device.
pub proof fn law_network_message_numbers()
    ensures
        netvsp::msg_type::NONE == 0,
        netvsp::msg_type::INIT == 1,
        netvsp::msg_type::INIT_COMPLETE == 2,
        netvsp::msg_type::VERSION_MSG_START == 100,
        netvsp::msg_type::V1_SEND_NDIS_VERSION == 100,
        netvsp::msg_type::V1_SEND_RECV_BUF == 101,
        netvsp::msg_type::V1_SEND_RECV_BUF_COMPLETE == 102,
        netvsp::msg_type::V1_REVOKE_RECV_BUF == 103,
        netvsp::msg_type::V1_SEND_SEND_BUF == 104,
        netvsp::msg_type::V1_SEND_SEND_BUF_COMPLETE == 105,
        netvsp::msg_type::V1_REVOKE_SEND_BUF == 106,
        netvsp::msg_type::V1_SEND_RNDIS_PKT == 107,
        netvsp::msg_type::V1_SEND_RNDIS_PKT_COMPLETE == 108,
        netvsp::msg_type::V2_SEND_NDIS_CONFIG == 125,
        netvsp::msg_type::V4_SEND_VF_ASSOCIATION == 128,
        netvsp::msg_type::V4_SWITCH_DATA_PATH == 129,
        netvsp::msg_type::V5_SEND_INDIRECTION_TABLE == 134,
{
}

/// Law: the numbers of RNDIS.
pub proof fn law_rndis_numbers()
    ensures
        netvsp::rndis::MESSAGE_TYPE_PACKET_MSG == 1,
        netvsp::rndis::NDIS_PACKET_TYPE_DIRECTED == 0x1,
        netvsp::rndis::NDIS_PACKET_TYPE_ALL_MULTICAST == 0x4,
        netvsp::rndis::NDIS_PACKET_TYPE_BROADCAST == 0x8,
{
}

/// Law: the numbers of the answers of the network device.
pub proof fn law_network_status_numbers()
    ensures
        netvsp::status::NONE == 0,
        netvsp::status::SUCCESS == 1,
        netvsp::status::FAILURE == 2,
        netvsp::status::INVALID_RNDIS_PACKET == 5,
        netvsp::status::BUSY == 6,
        netvsp::status::PROTOCOL_VERSION_UNSUPPORTED == 7,
{
}

/// Law: the numbers of what a program may ask of the network device.
pub proof fn law_network_program_numbers()
    ensures
        network_program::FLAG_REQUEST_COMPLETION == 1,
        network_program::MAX_FUZZ_MSG_LEN == 65536,
        network_program::RECV_BUFFER_SIZE == 262144,
        network_program::SEND_BUFFER_SIZE == 1048576,
        network_program::DEFAULT_MTU == 1514,
{
}

/// Law: the numbers of what a program may ask of the bus.
pub proof fn law_bus_program_numbers()
    ensures
        bus_program::MAX_FUZZ_MSG_LEN == 4096,
        bus_program::MAX_FUZZ_PKT_LEN == 16384,
        bus_program::FILL_RELIDS_COUNT == 10,
        bus_program::RESET_DRAIN_LIMIT == 64,
{
}

/// Law: the numbers of raw messages and packets.
pub proof fn law_raw_numbers()
    ensures
        fuzz::PACKET_DESCRIPTOR_SIZE == 16,
        fuzz::DEFAULT_WAIT_POLLS == 1_000_000,
{
}

/// Law: the numbers of the shares of a region that a message carries.
pub proof fn law_region_numbers()
    ensures
        gpadl::HEADER_RANGE_CAPACITY_BYTES == 216,
        gpadl::BODY_RANGE_CAPACITY_BYTES == 224,
{
}

/// Law: the numbers of hypercalls.
pub proof fn law_hypercall_numbers()
    ensures
        hv::HV_CALL_GET_VP_REGISTERS == 0x50,
        hv::HV_CALL_SET_VP_REGISTERS == 0x51,
        hv::HV_CALL_POST_MESSAGE == 0x5c,
        hv::HV_CALL_SIGNAL_EVENT == 0x5d,
        hv::HV_PARTITION_ID_SELF == 0xffff_ffff_ffff_ffff,
        hv::HV_VP_INDEX_SELF == 0xffff_fffe,
        hv::HV_MESSAGE_TYPE_NONE == 0,
        hv::HvInputVtl::CURRENT_VTL == 0,
{
}

/// Law: the numbers of how often a message is posted again.
pub proof fn law_retry_numbers()
    ensures
        hypercalls::POST_MESSAGE_MAX_RETRIES == 100,
        hypercalls::POST_MESSAGE_BACKOFF_ITERS == 10_000,
        hypercalls::POST_MESSAGE_BACKOFF_MAX_SHIFT == 12,
{
}

/// Law: the numbers of how a slot is freed and polled.
pub proof fn law_slot_numbers()
    ensures
        interrupt::HV_REGISTER_EOM == 0x000a_0014,
        interrupt::DEFAULT_RETRIES == 100_000_000,
        interrupt::SimpPump::DEFAULT_MAX_RETRIES == 100_000_000,
{
}

/// Law: the numbers of the messages, packets and statuses of the bus.
pub proof fn law_protocol_numbers()
    ensures
        protocol::HEADER_SIZE == 8,
        protocol::HV_MESSAGE_PAYLOAD_SIZE == 240,
        protocol::HV_MESSAGE_SIZE == 256,
        protocol::HV_PAGE_SIZE == 4096,
        protocol::MAX_MESSAGE_SIZE == 240,
        protocol::HV_MESSAGE_TYPE_CHANNEL == 1,
        protocol::VMBUS_CONNECTION_ID_LEGACY == 1,
        protocol::VMBUS_CONNECTION_ID_MODERN == 4,
        protocol::STATUS_SUCCESS == 0,
        protocol::STATUS_UNSUCCESSFUL == -2147418113,
        protocol::STATUS_CONNECTION_REFUSED == -1073741258,
        protocol::MessageType::INVALID == 0,
        protocol::MessageType::OFFER_CHANNEL == 1,
        protocol::MessageType::RESCIND_CHANNEL_OFFER == 2,
        protocol::MessageType::REQUEST_OFFERS == 3,
        protocol::MessageType::ALL_OFFERS_DELIVERED == 4,
        protocol::MessageType::OPEN_CHANNEL == 5,
        protocol::MessageType::OPEN_CHANNEL_RESULT == 6,
        protocol::MessageType::CLOSE_CHANNEL == 7,
        protocol::MessageType::GPADL_HEADER == 8,
        protocol::MessageType::GPADL_BODY == 9,
        protocol::MessageType::GPADL_CREATED == 10,
        protocol::MessageType::GPADL_TEARDOWN == 11,
        protocol::MessageType::GPADL_TORNDOWN == 12,
        protocol::MessageType::REL_ID_RELEASED == 13,
        protocol::MessageType::INITIATE_CONTACT == 14,
        protocol::MessageType::VERSION_RESPONSE == 15,
        protocol::MessageType::UNLOAD == 16,
        protocol::MessageType::UNLOAD_COMPLETE == 17,
        protocol::MessageType::OPEN_RESERVED_CHANNEL == 18,
        protocol::MessageType::CLOSE_RESERVED_CHANNEL == 19,
        protocol::MessageType::CLOSE_RESERVED_RESPONSE == 20,
        protocol::MessageType::TL_CONNECT_REQUEST == 21,
        protocol::MessageType::MODIFY_CHANNEL == 22,
        protocol::MessageType::TL_CONNECT_RESULT == 23,
        protocol::MessageType::MODIFY_CHANNEL_RESPONSE == 24,
        protocol::MessageType::MODIFY_CONNECTION == 25,
        protocol::MessageType::MODIFY_CONNECTION_RESPONSE == 26,
        protocol::MessageType::PAUSE == 27,
        protocol::MessageType::PAUSE_RESPONSE == 28,
        protocol::MessageType::RESUME == 29,
        protocol::ConnectionState::SUCCESSFUL == 0,
        protocol::ConnectionState::FAILED_LOW_RESOURCES == 1,
        protocol::ConnectionState::FAILED_UNKNOWN_FAILURE == 2,
        protocol::GpadlHeader::MAX_DATA_VALUES == 27,
        protocol::GpadlBody::MAX_DATA_VALUES == 28,
        protocol::VP_INDEX_DISABLE_INTERRUPT == 0xffff_ffff,
        protocol::PipeType::BYTE == 0,
        protocol::PipeType::MESSAGE == 4,
        protocol::HvsockParametersVersion::PRE_RS5 == 0,
        protocol::HvsockParametersVersion::RS5 == 1,
        protocol::PacketType::INVALID == 0x0,
        protocol::PacketType::VM_PKT_ESTABLISH_GPADL == 0x4,
        protocol::PacketType::VM_PKT_TEARDOWN_GPADL == 0x5,
        protocol::PacketType::VM_PKT_DATA_INBAND == 0x6,
        protocol::PacketType::VM_PKT_DATA_USING_XFER_PAGES == 0x7,
        protocol::PacketType::VM_PKT_DATA_USING_GPADL == 0x8,
        protocol::PacketType::VM_PKT_DATA_USING_GPA_DIRECT == 0x9,
        protocol::PacketType::VM_PKT_COMP == 0xB,
{
}

/// Law: the numbers of a ring.
pub proof fn law_ring_numbers()
    ensures
        ring::CONTROL_PAGE_SIZE == 4096,
        ring::DESCRIPTOR_SIZE == 16,
        ring::FOOTER_SIZE == 8,
        ring::FEATURE_SUPPORTS_PENDING_SEND_SIZE == 0x1,
        ring::MAX_PFNS == 32,
{
}

/// Law: the numbers of the control words of a ring.
pub proof fn law_control_word_numbers()
    ensures
        ring_model::IDX_IN == 0,
        ring_model::IDX_OUT == 1,
        ring_model::IDX_INTERRUPT_MASK == 2,
        ring_model::IDX_PENDING_SEND_SZ == 3,
        ring_model::IDX_FEATURE_BITS == 16,
        ring_model::CONTROL_WORD_COUNT == 17,
{
}

/// Law: the numbers of the interrupt controller.
pub proof fn law_controller_numbers()
    ensures
        synic::VMBUS_SINT == 2,
        synic::VMBUS_INTERRUPT_VECTOR == 0xf3,
        synic::HV_REGISTER_SIMP == 0x000a_0013,
        synic::HV_REGISTER_SIEFP == 0x000a_0012,
        synic::HV_REGISTER_SCONTROL == 0x000a_0010,
        synic::HV_REGISTER_SINT2 == 0x000a_0002,
{
}

} // verus!
