use vstd::prelude::*;

verus! {

/// A counter that hands out identifiers in increasing order, starting at 1.
///
/// Identifier 0 is never handed out: the repositories reserve it for their
/// fallback entry. Once every non-zero 32-bit value has been handed out the
/// source is exhausted.
pub struct IdSource {
    next: u32,
}

impl View for IdSource {
    type V = nat;

    /// The identifier that the next draw returns, or 0 when none is left.
    closed spec fn view(&self) -> nat {
        self.next as nat
    }
}

impl IdSource {
    /// The identifier that follows `current`; after the largest it is 0.
    pub open spec fn successor(current: nat) -> nat {
        if current == u32::MAX {
            0
        } else {
            current + 1
        }
    }

    pub fn new() -> (source: Self)
        ensures
            source@ == 1,
    {
        IdSource { next: 1 }
    }

    /// Whether every identifier has been handed out.
    pub fn is_exhausted(&self) -> (exhausted: bool)
        ensures
            exhausted == (self@ == 0),
    {
        self.next == 0
    }

    /// Hands out the next identifier.
    pub fn draw(&mut self) -> (id: u32)
        requires
            old(self)@ != 0,
        ensures
            id == old(self)@,
            id != 0,
            final(self)@ == Self::successor(old(self)@),
    {
        let id = self.next;
        self.next = id.wrapping_add(1);
        id
    }
}

impl Default for IdSource {
    fn default() -> (source: Self)
        ensures
            source@ == 1,
    {
        IdSource::new()
    }
}

} // verus!
