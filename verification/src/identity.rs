//! Agent identity: strongly typed ids and the allocator that hands them out.

use vstd::prelude::*;

verus! {

/// Strongly-typed identifier for agents.
#[derive(Debug, Copy, Clone, PartialEq, Eq, Hash, Structural)]
pub struct AgentId(pub u64);

/// Errors that can occur when allocating a new AgentId.
#[derive(Debug, Clone, Copy, PartialEq, Eq, Structural)]
pub enum AgentIdError {
    /// Exhausted all available AgentId values.
    Overflow,
}

impl AgentIdError {
    /// A human-readable description of the error.
    pub fn message(&self) -> (r: &'static str) {
        match self {
            AgentIdError::Overflow => "AgentId overflow: no more IDs available",
        }
    }
}

/// Hands out unique, strictly increasing AgentId values, starting at 1.
#[derive(Debug)]
pub struct AgentIdAllocator {
    next: u64,
}

impl AgentIdAllocator {
    /// The id the allocator will hand out next.
    pub closed spec fn spec_next(&self) -> u64 {
        self.next
    }

    /// Create a new allocator starting at 1.
    pub fn new() -> (r: Self)
        ensures
            r.spec_next() == 1u64,
    {
        AgentIdAllocator { next: 1 }
    }

    /// Allocate the next unique AgentId; fails only when every value has been
    /// handed out.
    pub fn allocate(&mut self) -> (r: Result<AgentId, AgentIdError>)
        ensures
            old(self).spec_next() < u64::MAX ==> r == Ok::<AgentId, AgentIdError>(
                AgentId(old(self).spec_next()),
            ) && final(self).spec_next() == old(self).spec_next() + 1,
            old(self).spec_next() == u64::MAX ==> r == Err::<AgentId, AgentIdError>(
                AgentIdError::Overflow,
            ) && final(self).spec_next() == old(self).spec_next(),
    {
        let id = self.next;
        match self.next.checked_add(1) {
            Some(n) => {
                self.next = n;
                Ok(AgentId(id))
            },
            None => Err(AgentIdError::Overflow),
        }
    }

    /// Peek the next value without consuming it.
    pub fn peek(&self) -> (r: AgentId)
        ensures
            r == AgentId(self.spec_next()),
    {
        AgentId(self.next)
    }
}

impl Default for AgentIdAllocator {
    /// Same as `AgentIdAllocator::new`.
    fn default() -> (r: Self)
        ensures
            r.spec_next() == 1u64,
    {
        AgentIdAllocator::new()
    }
}

} // verus!
