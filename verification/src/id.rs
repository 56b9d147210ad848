use vstd::prelude::*;

verus! {

/// Identifier of a managed window, unique within one compositor process.
#[derive(Debug, Clone, Copy, PartialEq, Eq, Hash, Structural)]
pub struct WindowId(usize);

/// Source of fresh window identifiers: a counter starting at 1 that hands
/// out its current value and advances (wrapping like an atomic counter).
#[derive(Debug)]
pub struct IdSource {
    next: usize,
}

impl IdSource {
    /// The value the next issued identifier will carry.
    pub closed spec fn next_raw(&self) -> nat {
        self.next as nat
    }

    /// A fresh source; its first identifier is 1.
    pub fn new() -> (s: IdSource)
        ensures
            s.next_raw() == 1,
    {
        IdSource { next: 1 }
    }
}

impl WindowId {
    /// The raw counter value of this identifier.
    pub closed spec fn raw(self) -> usize {
        self.0
    }

    /// Generates a window identifier from `source`: its current counter
    /// value, after which the counter advances by one (wrapping at the top
    /// of the `usize` range).
    pub fn new(source: &mut IdSource) -> (id: WindowId)
        ensures
            id.raw() == old(source).next_raw(),
            final(source).next_raw() == if old(source).next_raw() == usize::MAX {
                0
            } else {
                old(source).next_raw() + 1
            },
            forall|w: WindowId| w.raw() < old(source).next_raw() ==> w != id,
    {
        let id = WindowId(source.next);
        source.next = if source.next == usize::MAX {
            0
        } else {
            source.next + 1
        };
        id
    }

    /// Returns the inner usize value.
    pub fn as_usize(&self) -> (v: usize)
        ensures
            v == self.raw(),
    {
        self.0
    }
}

} // verus!
