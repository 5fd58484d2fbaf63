//! Programming of the synthetic interrupt controller.
use vmbus_guest::error::TmkError;
use vmbus_guest::hv::GetSetVpRegisters;
use vmbus_guest::hv::HvRegisterAssoc;
use vmbus_guest::hv::HvSynicScontrol;
use vmbus_guest::hv::HvSynicSimpSiefp;
use vmbus_guest::hv::HvSynicSint;
use vmbus_guest::hv::HV_CALL_SET_VP_REGISTERS;
use vmbus_guest::hypercalls::HvCtx;
use vmbus_guest::hypercalls::HypercallConfig;
use vmbus_guest::hypercalls::HypercallTrait;
use vmbus_guest::hypercalls::SimpMem;
use vmbus_guest::synic::init_synic;
use vmbus_guest::synic::program_synic_registers;
use vmbus_guest::synic::synic_pages;
use vmbus_guest::synic::SynicPages;
use vmbus_guest::synic::VMBUS_INTERRUPT_VECTOR;
use vmbus_guest::wire::Wire;
use vmbus_guest::Error;

/// Records every hypercall.
#[derive(Default)]
struct MockCtx {
    calls: Vec<(u64, Vec<u8>, Option<usize>)>,
}

impl SimpMem for MockCtx {
    fn read_message_slot(&mut self, _gpa: u64) -> Vec<u8> {
        Vec::new()
    }
    fn clear_message_slot(&mut self, _gpa: u64) {}
}

impl HypercallTrait for MockCtx {
    fn hypercall(
        &mut self,
        code: u64,
        input: &[u8],
        _output: &mut [u8],
        cfg: HypercallConfig,
    ) -> Result<(), TmkError> {
        self.calls.push((code, input.to_vec(), cfg.rep_count));
        Ok(())
    }
}

struct FailCtx;

impl SimpMem for FailCtx {
    fn read_message_slot(&mut self, _gpa: u64) -> Vec<u8> {
        Vec::new()
    }
    fn clear_message_slot(&mut self, _gpa: u64) {}
}

impl HypercallTrait for FailCtx {
    fn hypercall(
        &mut self,
        _code: u64,
        _input: &[u8],
        _output: &mut [u8],
        _cfg: HypercallConfig,
    ) -> Result<(), TmkError> {
        Err(TmkError::AccessDenied)
    }
}

#[test]
fn program_synic_registers_writes_four_registers() {
    let mut ctx = HvCtx::new(MockCtx::default());
    program_synic_registers(&mut ctx, 0x1000, 0x2000, VMBUS_INTERRUPT_VECTOR).unwrap();

    assert_eq!(ctx.inner().calls.len(), 1);
    let (code, input, rep) = &ctx.inner().calls[0];
    assert_eq!(*code, HV_CALL_SET_VP_REGISTERS);
    assert_eq!(*rep, Some(4));

    // Parse the header + four HvRegisterAssoc.
    let (_hdr, rest) = GetSetVpRegisters::read_from_prefix(input).unwrap();
    let mut cur = rest;
    let mut regs = Vec::new();
    for _ in 0..4 {
        let (a, rest) = HvRegisterAssoc::read_from_prefix(cur).unwrap();
        regs.push(a);
        cur = rest;
    }

    // SIMP first: base_gpn = 0x1000 >> 12 = 1, enabled.
    let simp = HvSynicSimpSiefp(regs[0].value.as_u64());
    assert!(simp.enabled());
    assert_eq!(simp.base_gpn(), 1);

    // SIEFP second: base_gpn = 2, enabled.
    let siefp = HvSynicSimpSiefp(regs[1].value.as_u64());
    assert!(siefp.enabled());
    assert_eq!(siefp.base_gpn(), 2);

    // SINT2 third: vector = 0xF3, masked = false, auto_eoi = true.
    let sint2 = HvSynicSint(regs[2].value.as_u64());
    assert_eq!(sint2.vector(), VMBUS_INTERRUPT_VECTOR);
    assert!(!sint2.masked());
    assert!(sint2.auto_eoi());

    // SCONTROL fourth: enabled.
    let scontrol = HvSynicScontrol(regs[3].value.as_u64());
    assert!(scontrol.enabled());
}

#[test]
fn program_synic_registers_rejects_unaligned_gpa() {
    let mut ctx = HvCtx::new(MockCtx::default());
    let err =
        program_synic_registers(&mut ctx, 0x1001, 0x2000, VMBUS_INTERRUPT_VECTOR).unwrap_err();
    assert!(matches!(err, Error::Parse { .. }));
    assert!(ctx.inner().calls.is_empty());
}

#[test]
fn program_synic_registers_propagates_hypercall_error() {
    let mut ctx = HvCtx::new(FailCtx);
    let err =
        program_synic_registers(&mut ctx, 0x1000, 0x2000, VMBUS_INTERRUPT_VECTOR).unwrap_err();
    assert!(matches!(err, Error::Hypercall(_)));
}

#[test]
fn pages_are_remembered_once_programmed() {
    let pages = SynicPages { simp_gpa: 0x3000, siefp_gpa: 0x4000 };
    let mut slot = None;
    let mut ctx = HvCtx::new(FailCtx);
    assert!(init_synic(&mut ctx, &mut slot, Some(pages)).is_err());
    assert!(synic_pages(&slot).is_none());
    let mut ctx = HvCtx::new(MockCtx::default());
    assert!(matches!(
        init_synic(&mut ctx, &mut slot, None),
        Err(Error::Hypercall(TmkError::AllocationFailed))
    ));
    init_synic(&mut ctx, &mut slot, Some(pages)).unwrap();
    assert_eq!(synic_pages(&slot).unwrap().simp_gpa, 0x3000);
}
