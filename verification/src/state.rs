//! What the guest remembers between calls.
use crate::connection::ConnectionState;
use crate::hvsock::ConnectResultHandler;
use crate::message::CompletionTable;
use crate::message::SlotState;
use crate::synic::SynicPages;
use vstd::prelude::*;

verus! {

/// Hands out 32-bit ids, starting at 1 so a zero id can be used as a
/// sentinel.
#[derive(Debug)]
pub struct IdCounter {
    /// The id that is handed out next.
    pub next: u32,
}

/// The id that is handed out `n` allocations after `first`.
pub open spec fn nth_id(first: u32, n: nat) -> u32 {
    ((first + n) % 0x1_0000_0000) as u32
}

impl IdCounter {
    /// A counter that starts at 1.
    pub fn new() -> (r: Self)
        ensures
            r.next == 1,
    {
        IdCounter { next: 1 }
    }

    /// A fresh id. The counter starts over once all ids were used.
    pub fn allocate(&mut self) -> (r: u32)
        ensures
            r == old(self).next,
            final(self).next == nth_id(old(self).next, 1),
    {
        let id = self.next;
        self.next = if id == u32::MAX {
            0
        } else {
            id + 1
        };
        id
    }
}

/// Law: the counter comes back to an id only after all others were
/// handed out.
pub proof fn law_ids_distinct(first: u32, n: nat, m: nat)
    requires
        n < m < n + 0x1_0000_0000,
    ensures
        nth_id(first, n) != nth_id(first, m),
        nth_id(nth_id(first, n), 1) == nth_id(first, n + 1),
{
}

/// Everything that outlives a call: the negotiated connection, the
/// programmed interrupt controller, the requests under way, the connect
/// result handler and the id counters.
pub struct VmbusState<H: ConnectResultHandler> {
    pub connection: Option<ConnectionState>,
    pub synic: Option<SynicPages>,
    pub table: CompletionTable,
    pub handler: Option<H>,
    pub gpadl_ids: IdCounter,
    pub open_ids: IdCounter,
}

impl<H: ConnectResultHandler> VmbusState<H> {
    /// Nothing has happened yet.
    pub open spec fn fresh(self) -> bool {
        &&& self.connection is None
        &&& self.synic is None
        &&& self.table@ == Seq::<SlotState>::empty()
        &&& self.handler is None
        &&& self.gpadl_ids.next == 1
        &&& self.open_ids.next == 1
    }

    /// A state in which nothing has happened yet.
    pub fn new() -> (r: Self)
        ensures
            r.fresh(),
    {
        VmbusState {
            connection: None,
            synic: None,
            table: CompletionTable::new(),
            handler: None,
            gpadl_ids: IdCounter::new(),
            open_ids: IdCounter::new(),
        }
    }
}

} // verus!
