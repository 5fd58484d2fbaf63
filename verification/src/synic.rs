//! SynIC bring-up for the VMBus SINT.
//!
//! On each VP we need to:
//! 1. Allocate one guest page for SIMP (message page) and one for SIEFP
//!    (event flags page).
//! 2. Program the SIMP / SIEFP registers with the page GPAs and enable
//!    bits, using `HvCallSetVpRegisters`.
//! 3. Program `SINT2` with the vmbus vector, `auto_eoi = true` and
//!    `masked = false`.
//! 4. Enable `SCONTROL`.
//!
//! Register writes go through [`HypercallTrait`]. The platform allocates
//! the pages and hands their addresses in.
use crate::error::Error;
use crate::error::Result;
use crate::error::TmkError;
use crate::hv::HvInputVtl;
use crate::hv::HvRegisterName;
use crate::hv::HvRegisterValue;
use crate::hv::HvSynicScontrol;
use crate::hv::HvSynicSimpSiefp;
use crate::hv::HvSynicSint;
use crate::hypercalls;
use crate::hypercalls::set_vp_registers;
use crate::hypercalls::HvCtx;
use crate::hypercalls::HypercallTrait;
use crate::protocol::HV_PAGE_SIZE;
use vstd::prelude::*;

verus! {

broadcast use crate::hypercalls::group_ran;

/// Standard SINT index reserved for VMBus.
pub const VMBUS_SINT: u8 = 2;

/// IDT/GIC vector used for the VMBus SINT.
pub const VMBUS_INTERRUPT_VECTOR: u8 = 0xf3;

/// Message page register.
pub const HV_REGISTER_SIMP: u32 = 0x000a_0013;

/// Event flags page register.
pub const HV_REGISTER_SIEFP: u32 = 0x000a_0012;

/// Control register.
pub const HV_REGISTER_SCONTROL: u32 = 0x000a_0010;

/// Register of the VMBus interrupt source.
pub const HV_REGISTER_SINT2: u32 = 0x000a_0002;

/// Guest-physical addresses of the SynIC pages for the current VP.
#[derive(Copy, Clone, Debug, Eq, PartialEq, Structural)]
pub struct SynicPages {
    /// GPA of the message page (SIMP target).
    pub simp_gpa: u64,
    /// GPA of the event flags page (SIEFP target).
    pub siefp_gpa: u64,
}

/// The four registers and what they are set to. The interrupt source is
/// left unmasked, or the host's posts are refused; polling keeps the
/// hypervisor from injecting an interrupt for each message.
pub open spec fn synic_registers(simp_gpa: u64, siefp_gpa: u64, vector: u8) -> Seq<
    (HvRegisterName, HvRegisterValue),
> {
    seq![
        (
            HvRegisterName(HV_REGISTER_SIMP),
            HvRegisterValue { low: (simp_gpa + 1) as u64, high: 0 },
        ),
        (
            HvRegisterName(HV_REGISTER_SIEFP),
            HvRegisterValue { low: (siefp_gpa + 1) as u64, high: 0 },
        ),
        (
            HvRegisterName(HV_REGISTER_SINT2),
            HvRegisterValue { low: (0x6_0000 + vector) as u64, high: 0 },
        ),
        (HvRegisterName(HV_REGISTER_SCONTROL), HvRegisterValue { low: 1, high: 0 }),
    ]
}

/// Program the SynIC registers so the hypervisor delivers SINT2
/// messages / events into the given guest pages.
///
/// This is the platform-agnostic half of [`init_synic`]: it doesn't
/// allocate anything.
///
/// * `simp_gpa` must be page-aligned; only the top 52 bits go into
///   the register.
/// * `siefp_gpa` same.
/// * `vector` is the vector the hypervisor injects when SINT2 fires;
///   use [`VMBUS_INTERRUPT_VECTOR`].
pub fn program_synic_registers<C: HypercallTrait>(
    ctx: &mut HvCtx<C>,
    simp_gpa: u64,
    siefp_gpa: u64,
    vector: u8,
) -> (r: Result<()>)
    ensures
        old(ctx).ran_to(*final(ctx)),
        if simp_gpa % HV_PAGE_SIZE != 0 || siefp_gpa % HV_PAGE_SIZE != 0 {
            &&& r == Err::<(), Error>(
                Error::Parse { ty: None, reason: "SynIC pages must be 4 KiB aligned" },
            )
            &&& *final(ctx) == *old(ctx)
        } else {
            &&& hypercalls::one_more(old(ctx).log(), final(ctx).log())
            &&& old(ctx).platform().called(
                final(ctx).log().last()->Call_0,
                final(ctx).platform(),
            )
            &&& hypercalls::is_register_write(
                final(ctx).log().last(),
                HvInputVtl(HvInputVtl::CURRENT_VTL),
                synic_registers(simp_gpa, siefp_gpa, vector),
                r,
            )
        },
{
    if simp_gpa % HV_PAGE_SIZE != 0 || siefp_gpa % HV_PAGE_SIZE != 0 {
        return Err(Error::Parse { ty: None, reason: "SynIC pages must be 4 KiB aligned" });
    }
    let simp = HvSynicSimpSiefp::new(true, simp_gpa / HV_PAGE_SIZE);
    let siefp = HvSynicSimpSiefp::new(true, siefp_gpa / HV_PAGE_SIZE);
    let sint2 = HvSynicSint::new(vector, false, true, true);
    let scontrol = HvSynicScontrol::new(true);
    let assocs: [(HvRegisterName, HvRegisterValue); 4] = [
        (HvRegisterName(HV_REGISTER_SIMP), HvRegisterValue::from_u64(simp.0)),
        (HvRegisterName(HV_REGISTER_SIEFP), HvRegisterValue::from_u64(siefp.0)),
        (HvRegisterName(HV_REGISTER_SINT2), HvRegisterValue::from_u64(sint2.0)),
        (HvRegisterName(HV_REGISTER_SCONTROL), HvRegisterValue::from_u64(scontrol.0)),
    ];
    proof {
        assert(assocs@ =~= synic_registers(simp_gpa, siefp_gpa, vector));
    }
    set_vp_registers(ctx, HvInputVtl(HvInputVtl::CURRENT_VTL), assocs.as_slice())
}

/// The pages of a controller that was programmed, once
/// [`init_synic`] has completed.
pub fn synic_pages(slot: &Option<SynicPages>) -> (r: Option<SynicPages>)
    ensures
        r == *slot,
{
    *slot
}

/// Program the current VP's SynIC state and record it in `slot`.
///
/// `pages` is what the platform allocated: two zeroed page-aligned pages,
/// or `None` where it could not.
pub fn init_synic<C: HypercallTrait>(
    ctx: &mut HvCtx<C>,
    slot: &mut Option<SynicPages>,
    pages: Option<SynicPages>,
) -> (r: Result<()>)
    ensures
        old(ctx).ran_to(*final(ctx)),
        match pages {
            None => {
                &&& r == Err::<(), Error>(Error::Hypercall(TmkError::AllocationFailed))
                &&& *final(ctx) == *old(ctx)
                &&& *final(slot) == *old(slot)
            },
            Some(p) => synic_programmed(
                p,
                (*old(ctx), *final(ctx)),
                (*old(slot), *final(slot)),
                r,
            ),
        },
{
    match pages {
        Some(pages) => init_synic_with_pages(ctx, slot, pages),
        None => Err(Error::Hypercall(TmkError::AllocationFailed)),
    }
}

/// Programming the controller over `pages` went like this.
pub open spec fn synic_programmed<C: HypercallTrait>(
    pages: SynicPages,
    ctx: (HvCtx<C>, HvCtx<C>),
    slot: (Option<SynicPages>, Option<SynicPages>),
    r: Result<()>,
) -> bool {
    if pages.simp_gpa % HV_PAGE_SIZE != 0 || pages.siefp_gpa % HV_PAGE_SIZE != 0 {
        &&& r == Err::<(), Error>(
            Error::Parse { ty: None, reason: "SynIC pages must be 4 KiB aligned" },
        )
        &&& ctx.1 == ctx.0
        &&& slot.1 == slot.0
    } else {
        &&& hypercalls::one_more(ctx.0.log(), ctx.1.log())
        &&& ctx.0.platform().called(ctx.1.log().last()->Call_0, ctx.1.platform())
        &&& hypercalls::is_register_write(
            ctx.1.log().last(),
            HvInputVtl(HvInputVtl::CURRENT_VTL),
            synic_registers(pages.simp_gpa, pages.siefp_gpa, VMBUS_INTERRUPT_VECTOR),
            r,
        )
        &&& slot.1 == (if r is Ok {
            Some(pages)
        } else {
            slot.0
        })
    }
}

/// Program the SynIC using pre-allocated pages. Useful when the
/// caller wants to allocate early and defer the hypercalls.
pub fn init_synic_with_pages<C: HypercallTrait>(
    ctx: &mut HvCtx<C>,
    slot: &mut Option<SynicPages>,
    pages: SynicPages,
) -> (r: Result<()>)
    ensures
        old(ctx).ran_to(*final(ctx)),
        synic_programmed(pages, (*old(ctx), *final(ctx)), (*old(slot), *final(slot)), r),
{
    match program_synic_registers(
        ctx,
        pages.simp_gpa,
        pages.siefp_gpa,
        VMBUS_INTERRUPT_VECTOR,
    ) {
        Ok(()) => {
            *slot = Some(pages);
            Ok(())
        },
        Err(e) => Err(e),
    }
}

} // verus!
