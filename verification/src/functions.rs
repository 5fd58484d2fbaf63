//! Handlers that a fuzzing program calls by name.
//!
//! A program hands a handler integers: lengths, flags and addresses of
//! guest memory. What they address is untrusted, so every handler bounds
//! what it stages and survives whatever it reads.
pub mod netvsp;
pub mod sessions;
pub mod vmbus;

use crate::devices::netvsp::rndis::Rndis;
use crate::error::Error;
use crate::error::TmkError;
use crate::functions::netvsp::NetvspSession;
use crate::functions::netvsp::NicBacking;
use crate::functions::netvsp::NicMemory;
use crate::functions::vmbus::VmbusSession;
use crate::hvsock::ConnectResultHandler;
use crate::ring::RingMem;
use crate::state::VmbusState;
use crate::synic::SynicPages;
use vstd::prelude::*;

verus! {

/// Guest memory could not be accessed.
#[derive(Copy, Clone, Debug, PartialEq, Eq)]
pub struct MemFault;

/// Guest memory as a program addresses it. The relations say what an
/// implementation reads and writes.
pub trait SafeMemoryMap: Sized {
    /// Reading `len` bytes at `ptr` gives `got`, or nothing where the
    /// memory cannot be read, and leaves `next`. By default nothing is
    /// known of it.
    open spec fn mem_read(self, ptr: usize, len: nat, got: Option<Seq<u8>>, next: Self) -> bool {
        true
    }

    /// Writing `data` at `ptr` works or not, and leaves `next`. By default
    /// nothing is known of it.
    open spec fn mem_written(self, ptr: usize, data: Seq<u8>, ok: bool, next: Self) -> bool {
        true
    }

    /// Fill `buf` with the bytes at `ptr`.
    fn try_read_mem(&mut self, ptr: usize, buf: &mut [u8]) -> (r: core::result::Result<
        (),
        MemFault,
    >)
        ensures
            final(buf)@.len() == old(buf)@.len(),
            old(self).mem_read(
                ptr,
                old(buf)@.len(),
                if r is Ok {
                    Some(final(buf)@)
                } else {
                    None
                },
                *final(self),
            ),
    ;

    /// Write `data` to the bytes at `ptr`.
    fn try_write_mem(&mut self, ptr: usize, data: &[u8]) -> (r: core::result::Result<
        (),
        MemFault,
    >)
        ensures
            old(self).mem_written(ptr, data@, r is Ok, *final(self)),
    ;
}

/// Memory that starts at address 0.
impl SafeMemoryMap for Vec<u8> {
    open spec fn mem_read(self, ptr: usize, len: nat, got: Option<Seq<u8>>, next: Self) -> bool {
        &&& next == self
        &&& got == if ptr + len <= self@.len() {
            Some(self@.subrange(ptr as int, ptr + len))
        } else {
            None
        }
    }

    open spec fn mem_written(self, ptr: usize, data: Seq<u8>, ok: bool, next: Self) -> bool {
        &&& ok == (ptr + data.len() <= self@.len())
        &&& next@ == if ok {
            self@.take(ptr as int) + data + self@.skip(ptr + data.len())
        } else {
            self@
        }
    }

    fn try_read_mem(&mut self, ptr: usize, buf: &mut [u8]) -> (r: core::result::Result<
        (),
        MemFault,
    >) {
        let n = buf.len();
        let len = self.len();
        if ptr > len || n > len - ptr {
            return Err(MemFault);
        }
        let mut i: usize = 0;
        while i < n
            invariant
                i <= n,
                n == buf@.len(),
                n == old(buf)@.len(),
                ptr + n <= self@.len(),
                len == self@.len(),
                self@ == old(self)@,
                buf@.take(i as int) == self@.subrange(ptr as int, ptr + i),
            decreases n - i,
        {
            buf[i] = self[ptr + i];
            i += 1;
            proof {
                assert(buf@.take(i as int) =~= self@.subrange(ptr as int, ptr + i));
            }
        }
        proof {
            assert(buf@.take(i as int) =~= buf@);
        }
        Ok(())
    }

    fn try_write_mem(&mut self, ptr: usize, data: &[u8]) -> (r: core::result::Result<
        (),
        MemFault,
    >) {
        let n = data.len();
        let len = self.len();
        if ptr > len || n > len - ptr {
            return Err(MemFault);
        }
        let ghost was = self@;
        let mut i: usize = 0;
        proof {
            assert(self@ =~= was.take(ptr as int) + data@.take(0) + was.skip(ptr as int));
        }
        while i < n
            invariant
                i <= n,
                n == data@.len(),
                was == old(self)@,
                len == was.len(),
                ptr + n <= len,
                self@ == was.take(ptr as int) + data@.take(i as int) + was.skip(ptr + i),
            decreases n - i,
        {
            self[ptr + i] = data[i];
            i += 1;
            proof {
                assert(self@ =~= was.take(ptr as int) + data@.take(i as int) + was.skip(ptr + i));
            }
        }
        proof {
            assert(data@.take(i as int) =~= data@);
        }
        Ok(())
    }
}

/// Why a handler did not do what it was asked.
#[derive(Copy, Clone, Debug)]
pub enum HandlerError {
    /// A length is over the bound for this handler.
    TooLong { len: usize, max: usize },
    /// The message is empty.
    Empty,
    /// The input could not be read.
    ReadFault,
    /// The output could not be written.
    WriteFault,
    /// An address that must not be null is.
    NullPointer,
    /// There is no offer to open a channel on.
    NoOffers,
    /// There is no offer of a synthetic NIC.
    NoNetvsp,
    /// The hypercall context could not be set up.
    Context(TmkError),
    /// Initialising the bus failed.
    Init(Error),
    /// Asking for the offers failed.
    Offers(Error),
    /// Opening the channel failed.
    Open(Error),
    /// Bringing the NIC up failed at this step.
    Nic(NicStep, Error),
    /// The bus refused the request.
    Bus(Error),
}

/// The steps that bring a NIC up, in order.
#[derive(Copy, Clone, Debug, PartialEq, Eq)]
pub enum NicStep {
    Open,
    NegotiateVersion,
    SendNdisConfig,
    SendNdisVersion,
    EstablishRecvBuffer,
    EstablishSendBuffer,
    RndisInit,
    SetPacketFilter,
}

/// What a handler comes to.
pub type Handled<T> = core::result::Result<T, HandlerError>;

/// What the platform sets up for a new session: a hypercall context and
/// the SynIC's pages, `None` where it could not allocate them.
pub struct Boot<C> {
    pub ctx: C,
    pub pages: Option<SynicPages>,
}

/// Reading a program's input went like this: a length over `max` is
/// refused, and nothing is read where there is nothing to read.
pub open spec fn input_read<G: SafeMemoryMap>(
    mem: (G, G),
    ptr: usize,
    len: usize,
    max: usize,
    r: Handled<Seq<u8>>,
) -> bool {
    if len > max {
        &&& r == Err::<Seq<u8>, HandlerError>(HandlerError::TooLong { len, max })
        &&& mem.1 == mem.0
    } else if len == 0 {
        &&& r == Ok::<Seq<u8>, HandlerError>(Seq::empty())
        &&& mem.1 == mem.0
    } else {
        match r {
            Ok(bytes) => bytes.len() == len && mem.0.mem_read(
                ptr,
                len as nat,
                Some(bytes),
                mem.1,
            ),
            Err(e) => e == HandlerError::ReadFault && mem.0.mem_read(ptr, len as nat, None, mem.1),
        }
    }
}

/// The bytes that were read, if any were.
pub open spec fn bytes_got(r: Handled<Vec<u8>>) -> Handled<Seq<u8>> {
    match r {
        Ok(v) => Ok(v@),
        Err(e) => Err(e),
    }
}

/// Read a bounded, program-supplied byte range out of guest memory.
pub fn read_input<G: SafeMemoryMap>(mem: &mut G, ptr: usize, len: usize, max: usize) -> (r: Handled<
    Vec<u8>,
>)
    ensures
        input_read((*old(mem), *final(mem)), ptr, len, max, bytes_got(r)),
{
    if len > max {
        return Err(HandlerError::TooLong { len, max });
    }
    let mut buf: Vec<u8> = vec![0u8; len];
    if len > 0 {
        match mem.try_read_mem(ptr, buf.as_mut_slice()) {
            Ok(()) => {},
            Err(_) => return Err(HandlerError::ReadFault),
        }
    }
    proof {
        if len == 0 {
            assert(buf@ =~= Seq::<u8>::empty());
        }
    }
    Ok(buf)
}

/// Law: what a program's input comes to is never longer than the bound.
pub proof fn law_input_bounded<G: SafeMemoryMap>(
    mem: (G, G),
    ptr: usize,
    len: usize,
    max: usize,
    bytes: Seq<u8>,
)
    requires
        input_read(mem, ptr, len, max, Ok(bytes)),
    ensures
        bytes.len() == len,
        bytes.len() <= max,
{
}

/// Resetting both sessions went like this: the NIC first, then the
/// connection itself.
pub open spec fn sessions_reset<
    C: Rndis<M>,
    M: RingMem,
    H: ConnectResultHandler,
    A: FnOnce(NicBacking) -> NicMemory<M>,
>(
    nic: (Option<NetvspSession<C, M>>, Option<NetvspSession<C, M>>),
    bus: (Option<VmbusSession<C, M>>, Option<VmbusSession<C, M>>),
    recycle: A,
    state: (VmbusState<H>, VmbusState<H>),
    freed: Option<u64>,
) -> bool {
    exists|mid: VmbusState<H>| #[trigger]
        netvsp::cell_reset((nic.0, nic.1), recycle, (state.0, mid)) && vmbus::cell_reset(
            bus,
            (mid, state.1),
            freed,
        )
}

/// Both resets, one after the other.
proof fn lemma_sessions_reset<
    C: Rndis<M>,
    M: RingMem,
    H: ConnectResultHandler,
    A: FnOnce(NicBacking) -> NicMemory<M>,
>(
    nic: (Option<NetvspSession<C, M>>, Option<NetvspSession<C, M>>),
    bus: (Option<VmbusSession<C, M>>, Option<VmbusSession<C, M>>),
    recycle: A,
    state: (VmbusState<H>, VmbusState<H>),
    freed: Option<u64>,
    mid: VmbusState<H>,
)
    requires
        netvsp::cell_reset((nic.0, nic.1), recycle, (state.0, mid)),
        vmbus::cell_reset(bus, (mid, state.1), freed),
    ensures
        sessions_reset(nic, bus, recycle, state, freed),
{
}

/// Reset both sessions at a testcase boundary: the NIC first, then the
/// connection itself. The NIC's channel is closed while the connection
/// that it rides is still up.
///
/// Gives the address of the ring region that is no longer in use, for the
/// platform to free.
pub fn reset_sessions<
    C: Rndis<M>,
    M: RingMem,
    H: ConnectResultHandler,
    A: FnOnce(NicBacking) -> NicMemory<M>,
>(
    nic: &mut Option<NetvspSession<C, M>>,
    bus: &mut Option<VmbusSession<C, M>>,
    recycle: A,
    state: &mut VmbusState<H>,
) -> (freed: Option<u64>)
    requires
        netvsp::cell_wf(*old(nic)),
        vmbus::cell_wf(*old(bus)),
        netvsp::recycles(recycle),
    ensures
        netvsp::cell_wf(*final(nic)),
        vmbus::cell_wf(*final(bus)),
        sessions_reset(
            (*old(nic), *final(nic)),
            (*old(bus), *final(bus)),
            recycle,
            (*old(state), *final(state)),
            freed,
        ),
{
    netvsp::reset_session(nic, recycle, state);
    let ghost mid = *state;
    let freed = vmbus::reset_session(bus, state);
    proof {
        lemma_sessions_reset(
            (*old(nic), *nic),
            (*old(bus), *bus),
            recycle,
            (*old(state), *state),
            freed,
            mid,
        );
    }
    freed
}

} // verus!
