//! Scoped ownership of natively allocated memory.
//!
//! The privileged enumeration calls hand back blocks that they allocate
//! themselves and that must be given back through the matching native
//! release routine — never through ordinary deallocation, and never for a
//! null pointer.  Each wrapper here owns at most one such block: the slot
//! starts empty, is handed to exactly one native call to fill, and on
//! release the block leaves the wrapper exactly once, so a release can
//! never be issued twice for one block nor for an empty slot.  Acquiring
//! the slot while it is already filled is a programming fault, excluded by
//! precondition rather than detected at run time.
use vstd::prelude::*;

verus! {

/// Owns at most one block returned by the paged account services; the
/// block must go back through their own release routine.
pub struct NetApiBuffer {
    slot: Option<Vec<u8>>,
}

impl NetApiBuffer {
    /// What the wrapper currently owns: the bytes of the filled block, or
    /// nothing while the slot is null.
    pub closed spec fn contents(&self) -> Option<Seq<u8>> {
        match self.slot {
            Some(v) => Some(v@),
            None => None,
        }
    }

    /// Whether the slot is still null.
    pub open spec fn is_null(&self) -> bool {
        self.contents() is None
    }

    /// A wrapper whose slot is null.
    pub fn new() -> (r: NetApiBuffer)
        ensures
            r.is_null(),
    {
        NetApiBuffer { slot: None }
    }

    /// Hands the empty slot over for one native call to fill; `filled`
    /// models the block the call wrote.  Acquiring a slot that is already
    /// filled is a double-acquisition fault, which the precondition rules
    /// out.
    pub fn inner_mut(&mut self, filled: Vec<u8>)
        requires
            old(self).is_null(),
        ensures
            final(self).contents() == Some(filled@),
    {
        self.slot = Some(filled);
    }

    /// A byte-addressable view of the owned block.
    pub fn bytes(&self) -> (r: &Vec<u8>)
        requires
            !self.is_null(),
        ensures
            Some(r@) == self.contents(),
    {
        match &self.slot {
            Some(v) => v,
            None => vstd::pervasive::unreached(),
        }
    }

    /// Ends the scope of the wrapper: a filled block is handed back — to
    /// be passed to the matching native release routine, exactly once —
    /// and a slot that was never filled yields nothing, so no release
    /// call is made for it.
    pub fn release(&mut self) -> (freed: Option<Vec<u8>>)
        ensures
            final(self).is_null(),
            freed is Some <==> !old(self).is_null(),
            freed matches Some(v) ==> Some(v@) == old(self).contents(),
    {
        let mut taken: Option<Vec<u8>> = None;
        core::mem::swap(&mut self.slot, &mut taken);
        taken
    }
}

/// Owns at most one block returned by the session enumeration service;
/// the block must go back through that service's own release routine.
/// The discipline is the same as for [`NetApiBuffer`], but the two
/// services have distinct release routines, so a block must never cross
/// from one wrapper kind to the other.
pub struct LsaBuffer {
    slot: Option<Vec<u8>>,
}

impl LsaBuffer {
    /// What the wrapper currently owns.
    pub closed spec fn contents(&self) -> Option<Seq<u8>> {
        match self.slot {
            Some(v) => Some(v@),
            None => None,
        }
    }

    /// Whether the slot is still null.
    pub open spec fn is_null(&self) -> bool {
        self.contents() is None
    }

    /// A wrapper whose slot is null.
    pub fn new() -> (r: LsaBuffer)
        ensures
            r.is_null(),
    {
        LsaBuffer { slot: None }
    }

    /// Hands the empty slot over for one native call to fill; acquiring a
    /// filled slot is a double-acquisition fault, excluded by the
    /// precondition.
    pub fn inner_mut(&mut self, filled: Vec<u8>)
        requires
            old(self).is_null(),
        ensures
            final(self).contents() == Some(filled@),
    {
        self.slot = Some(filled);
    }

    /// A byte-addressable view of the owned block.
    pub fn bytes(&self) -> (r: &Vec<u8>)
        requires
            !self.is_null(),
        ensures
            Some(r@) == self.contents(),
    {
        match &self.slot {
            Some(v) => v,
            None => vstd::pervasive::unreached(),
        }
    }

    /// Ends the scope of the wrapper; a never-filled slot yields nothing,
    /// so no release call is made for it.
    pub fn release(&mut self) -> (freed: Option<Vec<u8>>)
        ensures
            final(self).is_null(),
            freed is Some <==> !old(self).is_null(),
            freed matches Some(v) ==> Some(v@) == old(self).contents(),
    {
        let mut taken: Option<Vec<u8>> = None;
        core::mem::swap(&mut self.slot, &mut taken);
        taken
    }
}

} // verus!
