//! The part of the Hyper-V interface that the guest uses: hypercall
//! codes and inputs, virtual registers, and the synthetic interrupt
//! controller's register layouts.
use crate::wire;
use crate::wire::Wire;
use vstd::prelude::*;

verus! {

/// `HvCallGetVpRegisters`.
pub const HV_CALL_GET_VP_REGISTERS: u64 = 0x50;

/// `HvCallSetVpRegisters`.
pub const HV_CALL_SET_VP_REGISTERS: u64 = 0x51;

/// `HvCallPostMessage`.
pub const HV_CALL_POST_MESSAGE: u64 = 0x5c;

/// `HvCallSignalEvent`.
pub const HV_CALL_SIGNAL_EVENT: u64 = 0x5d;

/// The calling partition.
pub const HV_PARTITION_ID_SELF: u64 = 0xffff_ffff_ffff_ffff;

/// The calling virtual processor.
pub const HV_VP_INDEX_SELF: u32 = 0xffff_fffe;

/// Hyper-V message type of an empty message slot.
pub const HV_MESSAGE_TYPE_NONE: u32 = 0;

/// Names a virtual register.
#[derive(Copy, Clone, Debug, PartialEq, Eq, Structural)]
pub struct HvRegisterName(pub u32);

impl Wire for HvRegisterName {
    open spec fn wire(&self) -> Seq<u8> {
        self.0.wire()
    }

    open spec fn wire_len() -> nat {
        4
    }

    proof fn lemma_wire_len(&self) {
        self.0.lemma_wire_len();
    }

    proof fn lemma_injective(&self, other: &Self) {
        self.0.lemma_injective(&other.0);
    }

    fn wire_size() -> (n: usize) {
        4
    }

    fn write_to(&self, out: &mut Vec<u8>) {
        self.0.write_to(out);
    }

    fn read_at(bytes: &[u8], off: usize) -> (r: Self) {
        let r = HvRegisterName(u32::read_at(bytes, off));
        r
    }
}

/// Type of a Hyper-V message. Any value can occur.
#[derive(Copy, Clone, Debug, PartialEq, Eq, Structural)]
pub struct HvMessageType(pub u32);

impl Wire for HvMessageType {
    open spec fn wire(&self) -> Seq<u8> {
        self.0.wire()
    }

    open spec fn wire_len() -> nat {
        4
    }

    proof fn lemma_wire_len(&self) {
        self.0.lemma_wire_len();
    }

    proof fn lemma_injective(&self, other: &Self) {
        self.0.lemma_injective(&other.0);
    }

    fn wire_size() -> (n: usize) {
        4
    }

    fn write_to(&self, out: &mut Vec<u8>) {
        self.0.write_to(out);
    }

    fn read_at(bytes: &[u8], off: usize) -> (r: Self) {
        let r = HvMessageType(u32::read_at(bytes, off));
        r
    }
}

/// Trust level a register call is aimed at.
#[derive(Copy, Clone, Debug, PartialEq, Eq, Structural)]
pub struct HvInputVtl(pub u8);

impl Wire for HvInputVtl {
    open spec fn wire(&self) -> Seq<u8> {
        self.0.wire()
    }

    open spec fn wire_len() -> nat {
        1
    }

    proof fn lemma_wire_len(&self) {
        self.0.lemma_wire_len();
    }

    proof fn lemma_injective(&self, other: &Self) {
        self.0.lemma_injective(&other.0);
    }

    fn wire_size() -> (n: usize) {
        1
    }

    fn write_to(&self, out: &mut Vec<u8>) {
        self.0.write_to(out);
    }

    fn read_at(bytes: &[u8], off: usize) -> (r: Self) {
        let r = HvInputVtl(u8::read_at(bytes, off));
        r
    }
}

impl HvInputVtl {
    /// The trust level of the caller.
    pub const CURRENT_VTL: u8 = 0;
}

/// Contents of a virtual register.
#[derive(Copy, Clone, Debug, PartialEq, Eq)]
pub struct HvRegisterValue {
    pub low: u64,
    pub high: u64,
}

impl Wire for HvRegisterValue {
    open spec fn wire(&self) -> Seq<u8> {
        self.low.wire() + self.high.wire()
    }

    open spec fn wire_len() -> nat {
        16
    }

    proof fn lemma_wire_len(&self) {
        self.low.lemma_wire_len();
        self.high.lemma_wire_len();
    }

    proof fn lemma_injective(&self, other: &Self) {
        self.low.lemma_wire_len();
        other.low.lemma_wire_len();
        self.high.lemma_wire_len();
        other.high.lemma_wire_len();
        let b = self.wire();
        assert(self.low.wire() =~= b.subrange(0, 8));
        assert(other.low.wire() =~= b.subrange(0, 8));
        self.low.lemma_injective(&other.low);
        assert(self.high.wire() =~= b.subrange(8, 16));
        assert(other.high.wire() =~= b.subrange(8, 16));
        self.high.lemma_injective(&other.high);
    }

    fn wire_size() -> (n: usize) {
        16
    }

    fn write_to(&self, out: &mut Vec<u8>) {
        self.low.write_to(out);
        self.high.write_to(out);
        proof {
            assert(out@ =~= old(out)@ + self.wire());
        }
    }

    fn read_at(bytes: &[u8], off: usize) -> (r: Self) {
        proof {
            wire::lemma_slice_len(bytes);
        }
        let r = HvRegisterValue {
            low: u64::read_at(bytes, off),
            high: u64::read_at(bytes, off + 8),
        };
        proof {
            r.lemma_wire_len();
            r.low.lemma_wire_len();
            r.high.lemma_wire_len();
            assert(r.wire() =~= bytes@.subrange(off as int, off + 16));
        }
        r
    }
}

impl HvRegisterValue {
    /// A 64-bit register's contents.
    pub fn from_u64(value: u64) -> (r: Self)
        ensures
            r.low == value,
            r.high == 0,
    {
        HvRegisterValue { low: value, high: 0 }
    }

    /// The low 64 bits.
    pub fn as_u64(&self) -> (r: u64)
        ensures
            r == self.low,
    {
        self.low
    }
}

/// A register and what it is set to.
#[derive(Copy, Clone, Debug, PartialEq, Eq)]
pub struct HvRegisterAssoc {
    pub name: HvRegisterName,
    pub pad: [u8; 12],
    pub value: HvRegisterValue,
}

impl Wire for HvRegisterAssoc {
    open spec fn wire(&self) -> Seq<u8> {
        self.name.wire() + self.pad.wire() + self.value.wire()
    }

    open spec fn wire_len() -> nat {
        32
    }

    proof fn lemma_wire_len(&self) {
        self.name.lemma_wire_len();
        self.pad.lemma_wire_len();
        self.value.lemma_wire_len();
    }

    proof fn lemma_injective(&self, other: &Self) {
        self.name.lemma_wire_len();
        other.name.lemma_wire_len();
        self.pad.lemma_wire_len();
        other.pad.lemma_wire_len();
        self.value.lemma_wire_len();
        other.value.lemma_wire_len();
        let b = self.wire();
        assert(self.name.wire() =~= b.subrange(0, 4));
        assert(other.name.wire() =~= b.subrange(0, 4));
        self.name.lemma_injective(&other.name);
        assert(self.pad.wire() =~= b.subrange(4, 16));
        assert(other.pad.wire() =~= b.subrange(4, 16));
        self.pad.lemma_injective(&other.pad);
        assert(self.value.wire() =~= b.subrange(16, 32));
        assert(other.value.wire() =~= b.subrange(16, 32));
        self.value.lemma_injective(&other.value);
    }

    fn wire_size() -> (n: usize) {
        32
    }

    fn write_to(&self, out: &mut Vec<u8>) {
        self.name.write_to(out);
        self.pad.write_to(out);
        self.value.write_to(out);
        proof {
            assert(out@ =~= old(out)@ + self.wire());
        }
    }

    fn read_at(bytes: &[u8], off: usize) -> (r: Self) {
        proof {
            wire::lemma_slice_len(bytes);
        }
        let r = HvRegisterAssoc {
            name: HvRegisterName::read_at(bytes, off),
            pad: <[u8; 12]>::read_at(bytes, off + 4),
            value: HvRegisterValue::read_at(bytes, off + 16),
        };
        proof {
            r.lemma_wire_len();
            r.name.lemma_wire_len();
            r.pad.lemma_wire_len();
            r.value.lemma_wire_len();
            assert(r.wire() =~= bytes@.subrange(off as int, off + 32));
        }
        r
    }
}

/// Leads the input of a register call.
#[derive(Copy, Clone, Debug, PartialEq, Eq)]
pub struct GetSetVpRegisters {
    pub partition_id: u64,
    pub vp_index: u32,
    pub target_vtl: HvInputVtl,
    pub rsvd: [u8; 3],
}

impl Wire for GetSetVpRegisters {
    open spec fn wire(&self) -> Seq<u8> {
        self.partition_id.wire()
            + self.vp_index.wire()
            + self.target_vtl.wire()
            + self.rsvd.wire()
    }

    open spec fn wire_len() -> nat {
        16
    }

    proof fn lemma_wire_len(&self) {
        self.partition_id.lemma_wire_len();
        self.vp_index.lemma_wire_len();
        self.target_vtl.lemma_wire_len();
        self.rsvd.lemma_wire_len();
    }

    proof fn lemma_injective(&self, other: &Self) {
        self.partition_id.lemma_wire_len();
        other.partition_id.lemma_wire_len();
        self.vp_index.lemma_wire_len();
        other.vp_index.lemma_wire_len();
        self.target_vtl.lemma_wire_len();
        other.target_vtl.lemma_wire_len();
        self.rsvd.lemma_wire_len();
        other.rsvd.lemma_wire_len();
        let b = self.wire();
        assert(self.partition_id.wire() =~= b.subrange(0, 8));
        assert(other.partition_id.wire() =~= b.subrange(0, 8));
        self.partition_id.lemma_injective(&other.partition_id);
        assert(self.vp_index.wire() =~= b.subrange(8, 12));
        assert(other.vp_index.wire() =~= b.subrange(8, 12));
        self.vp_index.lemma_injective(&other.vp_index);
        assert(self.target_vtl.wire() =~= b.subrange(12, 13));
        assert(other.target_vtl.wire() =~= b.subrange(12, 13));
        self.target_vtl.lemma_injective(&other.target_vtl);
        assert(self.rsvd.wire() =~= b.subrange(13, 16));
        assert(other.rsvd.wire() =~= b.subrange(13, 16));
        self.rsvd.lemma_injective(&other.rsvd);
    }

    fn wire_size() -> (n: usize) {
        16
    }

    fn write_to(&self, out: &mut Vec<u8>) {
        self.partition_id.write_to(out);
        self.vp_index.write_to(out);
        self.target_vtl.write_to(out);
        self.rsvd.write_to(out);
        proof {
            assert(out@ =~= old(out)@ + self.wire());
        }
    }

    fn read_at(bytes: &[u8], off: usize) -> (r: Self) {
        proof {
            wire::lemma_slice_len(bytes);
        }
        let r = GetSetVpRegisters {
            partition_id: u64::read_at(bytes, off),
            vp_index: u32::read_at(bytes, off + 8),
            target_vtl: HvInputVtl::read_at(bytes, off + 12),
            rsvd: <[u8; 3]>::read_at(bytes, off + 13),
        };
        proof {
            r.lemma_wire_len();
            r.partition_id.lemma_wire_len();
            r.vp_index.lemma_wire_len();
            r.target_vtl.lemma_wire_len();
            r.rsvd.lemma_wire_len();
            assert(r.wire() =~= bytes@.subrange(off as int, off + 16));
        }
        r
    }
}

/// Input of `HvCallSignalEvent`.
#[derive(Copy, Clone, Debug, PartialEq, Eq)]
pub struct SignalEvent {
    pub connection_id: u32,
    pub flag_number: u16,
    pub rsvd: u16,
}

impl Wire for SignalEvent {
    open spec fn wire(&self) -> Seq<u8> {
        self.connection_id.wire() + self.flag_number.wire() + self.rsvd.wire()
    }

    open spec fn wire_len() -> nat {
        8
    }

    proof fn lemma_wire_len(&self) {
        self.connection_id.lemma_wire_len();
        self.flag_number.lemma_wire_len();
        self.rsvd.lemma_wire_len();
    }

    proof fn lemma_injective(&self, other: &Self) {
        self.connection_id.lemma_wire_len();
        other.connection_id.lemma_wire_len();
        self.flag_number.lemma_wire_len();
        other.flag_number.lemma_wire_len();
        self.rsvd.lemma_wire_len();
        other.rsvd.lemma_wire_len();
        let b = self.wire();
        assert(self.connection_id.wire() =~= b.subrange(0, 4));
        assert(other.connection_id.wire() =~= b.subrange(0, 4));
        self.connection_id.lemma_injective(&other.connection_id);
        assert(self.flag_number.wire() =~= b.subrange(4, 6));
        assert(other.flag_number.wire() =~= b.subrange(4, 6));
        self.flag_number.lemma_injective(&other.flag_number);
        assert(self.rsvd.wire() =~= b.subrange(6, 8));
        assert(other.rsvd.wire() =~= b.subrange(6, 8));
        self.rsvd.lemma_injective(&other.rsvd);
    }

    fn wire_size() -> (n: usize) {
        8
    }

    fn write_to(&self, out: &mut Vec<u8>) {
        self.connection_id.write_to(out);
        self.flag_number.write_to(out);
        self.rsvd.write_to(out);
        proof {
            assert(out@ =~= old(out)@ + self.wire());
        }
    }

    fn read_at(bytes: &[u8], off: usize) -> (r: Self) {
        proof {
            wire::lemma_slice_len(bytes);
        }
        let r = SignalEvent {
            connection_id: u32::read_at(bytes, off),
            flag_number: u16::read_at(bytes, off + 4),
            rsvd: u16::read_at(bytes, off + 6),
        };
        proof {
            r.lemma_wire_len();
            r.connection_id.lemma_wire_len();
            r.flag_number.lemma_wire_len();
            r.rsvd.lemma_wire_len();
            assert(r.wire() =~= bytes@.subrange(off as int, off + 8));
        }
        r
    }
}

// ---------------------------------------------------------------------------
// Synthetic interrupt controller
// ---------------------------------------------------------------------------
/// SIMP and SIEFP: where a page of the controller lies.
#[derive(Copy, Clone, Debug, PartialEq, Eq, Structural)]
pub struct HvSynicSimpSiefp(pub u64);

impl HvSynicSimpSiefp {
    /// A page at page frame `gpn`, enabled or not.
    pub fn new(enabled: bool, gpn: u64) -> (r: Self)
        requires
            gpn < 0x10_0000_0000_0000,
        ensures
            r.0 == gpn * 4096 + (if enabled {
                1int
            } else {
                0int
            }),
    {
        HvSynicSimpSiefp(
            gpn * 4096 + if enabled {
                1
            } else {
                0
            },
        )
    }

    /// Whether the page is in use.
    pub fn enabled(&self) -> (r: bool)
        ensures
            r == (self.0 % 2 == 1),
    {
        self.0 % 2 == 1
    }

    /// The page frame.
    pub fn base_gpn(&self) -> (r: u64)
        ensures
            r == self.0 / 4096,
    {
        self.0 / 4096
    }
}

/// One synthetic interrupt source.
#[derive(Copy, Clone, Debug, PartialEq, Eq, Structural)]
pub struct HvSynicSint(pub u64);

impl HvSynicSint {
    /// An interrupt source that raises `vector`. Bits 16 to 18 say
    /// whether it is masked, acknowledges itself, and is polled.
    pub fn new(vector: u8, masked: bool, auto_eoi: bool, polling: bool) -> (r: Self)
        ensures
            r.0 == vector + (if masked {
                0x1_0000int
            } else {
                0int
            }) + (if auto_eoi {
                0x2_0000int
            } else {
                0int
            }) + (if polling {
                0x4_0000int
            } else {
                0int
            }),
    {
        let m: u64 = if masked {
            0x1_0000
        } else {
            0
        };
        let a: u64 = if auto_eoi {
            0x2_0000
        } else {
            0
        };
        let p: u64 = if polling {
            0x4_0000
        } else {
            0
        };
        HvSynicSint(vector as u64 + m + a + p)
    }

    /// The vector that is raised.
    pub fn vector(&self) -> (r: u8)
        ensures
            r == self.0 % 256,
    {
        (self.0 % 256) as u8
    }

    /// Whether the source is masked.
    pub fn masked(&self) -> (r: bool)
        ensures
            r == (self.0 / 0x1_0000 % 2 == 1),
    {
        self.0 / 0x1_0000 % 2 == 1
    }

    /// Whether the source acknowledges itself.
    pub fn auto_eoi(&self) -> (r: bool)
        ensures
            r == (self.0 / 0x2_0000 % 2 == 1),
    {
        self.0 / 0x2_0000 % 2 == 1
    }

    /// Whether messages are polled for, without an interrupt.
    pub fn polling(&self) -> (r: bool)
        ensures
            r == (self.0 / 0x4_0000 % 2 == 1),
    {
        self.0 / 0x4_0000 % 2 == 1
    }
}

/// SCONTROL: the controller's main switch.
#[derive(Copy, Clone, Debug, PartialEq, Eq, Structural)]
pub struct HvSynicScontrol(pub u64);

impl HvSynicScontrol {
    /// On or off.
    pub fn new(enabled: bool) -> (r: Self)
        ensures
            r.0 == (if enabled {
                1u64
            } else {
                0u64
            }),
    {
        HvSynicScontrol(
            if enabled {
                1
            } else {
                0
            },
        )
    }

    /// Whether the controller is on.
    pub fn enabled(&self) -> (r: bool)
        ensures
            r == (self.0 % 2 == 1),
    {
        self.0 % 2 == 1
    }
}

} // verus!
