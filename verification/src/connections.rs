use vstd::prelude::*;

verus! {

/// Hands out the ids the server gives new connections: 0, 1, 2, ... in
/// order, so no id is handed out twice.
pub struct IdAllocator {
    next_id: u32,
}

impl View for IdAllocator {
    type V = u32;

    /// The id the next connection will get.
    closed spec fn view(&self) -> u32 {
        self.next_id
    }
}

impl IdAllocator {
    /// An allocator that has handed out nothing.
    pub fn new() -> (a: Self)
        ensures
            a@ == 0,
    {
        IdAllocator { next_id: 0 }
    }

    /// The id for a new connection. Every id handed out before is smaller,
    /// and every later one will be larger.
    pub fn allocate(&mut self) -> (id: u32)
        requires
            old(self)@ < u32::MAX,
        ensures
            id == old(self)@,
            final(self)@ == old(self)@ + 1,
    {
        let id = self.next_id;
        self.next_id = self.next_id + 1;
        id
    }

    /// Whether another id can be handed out.
    pub fn can_allocate(&self) -> (b: bool)
        ensures
            b == (self@ < u32::MAX),
    {
        self.next_id < u32::MAX
    }
}

} // verus!
