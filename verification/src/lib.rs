//! A persistent, append-only vector of fixed-size records that lives in a
//! file: one header page that holds a signature and the number of records,
//! then the records, tightly packed.
//!
//! The crate holds the file format, the rules of opening and growing, and a
//! model of the backing file on which the vector is proved to keep what was
//! appended to it. Reserving address space, allocating disk blocks and
//! paging hints are the caller's part: the plans that this crate computes
//! say what to ask of the operating system.

pub mod error;
pub mod layout;
pub mod header;
pub mod file;
pub mod paging;
pub mod growth;
pub mod image;
pub mod open;
pub mod vector;
pub mod laws;

pub use error::{AllocationError, OpenError};
pub use file::BackingFile;
pub use vector::{FileMappedVector, Rejected};
