use vstd::prelude::*;

verus! {

/// Why the physical storage behind a vector could not be extended.
#[derive(Debug, Clone, Copy, PartialEq, Eq, Structural)]
pub enum AllocationError {
    /// The range to allocate holds no byte.
    EmptyRange,
    /// The extended file would no longer fit into the reserved mapping.
    CeilingReached,
    /// The store cannot hold the extended file.
    StoreFull,
}

/// Why a file could not be opened as a vector.
#[derive(Debug, Clone, Copy, PartialEq, Eq, Structural)]
pub enum OpenError {
    /// The file handle does not allow writing.
    Permission,
    /// The reserved mapping cannot contain the file.
    Mapping,
    /// The header does not carry the signature, or counts more records than
    /// the file has room for.
    CorruptHeader,
    /// The file was empty and could not be extended to its initial length.
    Allocation(AllocationError),
}

} // verus!
