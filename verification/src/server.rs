//! The process table: an owned, injectable registry of submitted commands.
//!
//! The serving component owns one `Server`, allocates an identifier for
//! each submitted command and keeps the per-process state registered under
//! it. Nothing here is process-wide: a `Server` is an ordinary value whose
//! lifetime the caller controls.

use crate::process::Process;
use std::collections::HashMap;
use vstd::prelude::*;

verus! {

broadcast use vstd::std_specs::hash::group_hash_axioms;

/// A client-visible identifier for a submitted command.
#[derive(Clone, Copy, PartialEq, Eq, Hash, Structural)]
pub struct ProcessID(u64);

impl View for ProcessID {
    type V = u64;

    closed spec fn view(&self) -> u64 {
        self.0
    }
}

impl ProcessID {
    /// The identifier as a plain integer, for the surrounding runtime.
    pub fn raw(&self) -> (r: u64)
        ensures
            r == self@,
    {
        self.0
    }
}

/// The registry of submitted commands, each under the identifier that was
/// allocated for it.
pub struct Server {
    processes: HashMap<u64, Process>,
    counter: u64,
}

impl Server {
    /// The registered processes, by raw identifier.
    pub closed spec fn registry(&self) -> Map<u64, Process> {
        self.processes@
    }

    /// How many identifiers have been handed out so far.
    pub closed spec fn issued(&self) -> int {
        self.counter as int
    }

    /// Identifiers start at one and never outrun the allocation counter,
    /// and every registered process carries well-formed state.
    pub closed spec fn wf(&self) -> bool {
        forall|k: u64|
            self.processes@.contains_key(k) ==> (#[trigger] self.processes@[k]).state.wf() && 1
                <= k <= self.counter
    }

    /// An empty registry.
    pub fn new() -> (r: Server)
        ensures
            r.wf(),
            r.registry() == Map::<u64, Process>::empty(),
            r.issued() == 0,
    {
        Server { processes: HashMap::new(), counter: 0 }
    }

    /// Allocate the next process identifier. Identifiers are never reused.
    pub fn alloc_pid(&mut self) -> (r: ProcessID)
        requires
            old(self).issued() < u64::MAX,
        ensures
            final(self).issued() == old(self).issued() + 1,
            r@ == final(self).issued(),
            final(self).registry() == old(self).registry(),
            old(self).wf() ==> final(self).wf(),
    {
        self.counter = self.counter + 1;
        ProcessID(self.counter)
    }

    /// Submit a command: allocate an identifier and register a fresh
    /// process under it. Returns `None` only when the identifier space is
    /// exhausted, in which case nothing changes.
    pub fn submit(&mut self, command: String) -> (r: Option<ProcessID>)
        requires
            old(self).wf(),
        ensures
            final(self).wf(),
            old(self).issued() == u64::MAX as int ==> r is None && *final(self) == *old(self),
            old(self).issued() < u64::MAX as int ==> ({
                &&& r matches Some(pid)
                &&& pid@ == old(self).issued() + 1
                &&& final(self).issued() == old(self).issued() + 1
                &&& !old(self).registry().contains_key(pid@)
                &&& final(self).registry().contains_key(pid@)
                &&& final(self).registry()[pid@].command@ == command@
                &&& final(self).registry()[pid@].state.data.output@ == Seq::<u8>::empty()
                &&& final(self).registry()[pid@].state.data.exit_code is None
                &&& forall|k: u64|
                    k != pid@ ==> (final(self).registry().contains_key(k) <==> old(
                        self,
                    ).registry().contains_key(k)) && (old(self).registry().contains_key(k)
                        ==> #[trigger] final(self).registry()[k] == old(self).registry()[k])
            }),
    {
        if self.counter == u64::MAX {
            return None;
        }
        let pid = self.alloc_pid();
        let process = Process::new(command);
        self.processes.insert(pid.0, process);
        Some(pid)
    }

    /// Look a submitted process up by its identifier.
    pub fn get(&self, pid: ProcessID) -> (r: Option<&Process>)
        ensures
            match r {
                Some(p) => self.registry().contains_key(pid@) && *p == self.registry()[pid@],
                None => !self.registry().contains_key(pid@),
            },
    {
        self.processes.get(&pid.0)
    }
}

impl Default for Server {
    /// An empty registry.
    fn default() -> (r: Server)
        ensures
            r.wf(),
            r.registry() == Map::<u64, Process>::empty(),
            r.issued() == 0,
    {
        Server::new()
    }
}

} // verus!
