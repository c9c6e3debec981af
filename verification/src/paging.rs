use vstd::prelude::*;

verus! {

/// The access pattern that a paging hint announces.
#[derive(Debug, Clone, Copy, PartialEq, Eq, Structural)]
pub enum Advice {
    /// The range will be read or written front to back.
    Sequential,
    /// The range will be accessed in no particular order.
    Random,
    /// The range will be needed soon.
    WillNeed,
    /// The range will not be needed soon.
    DontNeed,
}

/// A paging hint for the `len` bytes of the mapping from `offset` on. Hints
/// are advisory: following or dropping one never changes what the file holds.
#[derive(Debug, Clone, Copy, PartialEq, Eq, Structural)]
pub struct Hint {
    pub offset: usize,
    pub len: usize,
    pub advice: Advice,
}

} // verus!
