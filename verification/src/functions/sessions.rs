//! What the handlers keep between calls.
use crate::devices::netvsp::rndis::Rndis;
use crate::executor::Sessions;
use crate::functions;
use crate::functions::netvsp;
use crate::functions::netvsp::NetvspSession;
use crate::functions::netvsp::NicBacking;
use crate::functions::netvsp::NicMemory;
use crate::functions::reset_sessions;
use crate::functions::vmbus;
use crate::functions::vmbus::VmbusSession;
use crate::hvsock::ConnectResultHandler;
use crate::ring::RingMem;
use crate::state::VmbusState;
use vstd::prelude::*;

verus! {

/// The guest's connection and the sessions over it.
pub struct GuestSessions<C, M: RingMem, H: ConnectResultHandler, A> {
    /// The connection.
    pub state: VmbusState<H>,
    /// The NIC's session, once one was brought up.
    pub nic: Option<NetvspSession<C, M>>,
    /// The session of the handlers for the bus itself.
    pub bus: Option<VmbusSession<C, M>>,
    /// Where the next walk over the offers starts.
    pub relid_cursor: usize,
    /// Takes back the memory of a NIC that was closed, and hands out memory
    /// for a new one.
    pub recycle: A,
    /// Ring regions that are no longer in use, for the platform to free.
    pub freed: Vec<u64>,
}

impl<
    C: Rndis<M>,
    M: RingMem,
    H: ConnectResultHandler,
    A: FnOnce(NicBacking) -> NicMemory<M> + Copy,
> GuestSessions<C, M, H, A> {
    /// No session is up yet.
    pub fn new(recycle: A) -> (r: Self)
        requires
            netvsp::recycles(recycle),
        ensures
            r.ready(),
            r.state.fresh(),
            r.nic is None,
            r.bus is None,
            r.relid_cursor == 0,
            r.recycle == recycle,
            r.freed@ == Seq::<u64>::empty(),
    {
        GuestSessions {
            state: VmbusState::new(),
            nic: None,
            bus: None,
            relid_cursor: 0,
            recycle,
            freed: Vec::new(),
        }
    }
}

/// The ring regions that are no longer in use, once `more` is one of them.
pub open spec fn freed_with(freed: Seq<u64>, more: Option<u64>) -> Seq<u64> {
    match more {
        Some(gpa) => freed.push(gpa),
        None => freed,
    }
}

impl<
    C: Rndis<M>,
    M: RingMem,
    H: ConnectResultHandler,
    A: FnOnce(NicBacking) -> NicMemory<M> + Copy,
> Sessions for GuestSessions<C, M, H, A> {
    open spec fn ready(self) -> bool {
        &&& netvsp::cell_wf(self.nic)
        &&& vmbus::cell_wf(self.bus)
        &&& netvsp::recycles(self.recycle)
    }

    /// The NIC is reset, then the connection itself.
    open spec fn reset_to(self, next: Self) -> bool {
        &&& next.relid_cursor == self.relid_cursor
        &&& next.recycle == self.recycle
        &&& exists|freed: Option<u64>|
            {
                &&& #[trigger] functions::sessions_reset(
                    (self.nic, next.nic),
                    (self.bus, next.bus),
                    self.recycle,
                    (self.state, next.state),
                    freed,
                )
                &&& next.freed@ == freed_with(self.freed@, freed)
            }
    }

    fn reset(&mut self) {
        let recycle = self.recycle;
        let freed = reset_sessions(&mut self.nic, &mut self.bus, recycle, &mut self.state);
        match freed {
            Some(gpa) => self.freed.push(gpa),
            None => {},
        }
    }
}

} // verus!
