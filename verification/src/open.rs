use vstd::prelude::*;
use crate::error::OpenError;
use crate::header::{decode_header, has_magic, stored_len, RESERVED_OFFSET};
use crate::layout::{
    capacity_for, capacity_of, checked_file_len, file_len, fits, well_sized, HEADER_SIZE,
    INITIAL_SLOTS,
};
use crate::paging::{Advice, Hint};

verus! {

/// What opening a file takes, once the handle and the length of the file
/// are known.
#[derive(Debug, Clone, Copy, PartialEq, Eq, Structural)]
pub enum OpenPlan {
    /// The file is empty: extend it to `len` bytes, which is room for
    /// `capacity` records, and write the header of an empty vector at its
    /// start.
    Initialize { len: usize, capacity: usize },
    /// The file exists: validate its header against room for `capacity`
    /// records.
    Attach { capacity: usize },
}

/// The paging hints for a mapping that was just made.
#[derive(Debug, Clone, Copy, PartialEq, Eq, Structural)]
pub struct OpenHints {
    /// The header page, read on every access to the length.
    pub header: Hint,
    /// The record slots that the file has.
    pub records: Hint,
    /// The rest of the mapping, behind the end of the file.
    pub reserve: Hint,
}

/// The hints for a mapping of `ceiling` bytes over a file with room for
/// `capacity` records: the header page and the slots will be needed, what
/// lies behind them will not.
pub open spec fn open_hints(capacity: nat, elem_size: nat, ceiling: u64) -> OpenHints {
    OpenHints {
        header: Hint { offset: 0, len: HEADER_SIZE, advice: Advice::WillNeed },
        records: Hint {
            offset: HEADER_SIZE,
            len: (capacity * elem_size) as usize,
            advice: Advice::WillNeed,
        },
        reserve: Hint {
            offset: file_len(capacity, elem_size) as usize,
            len: (ceiling - file_len(capacity, elem_size)) as usize,
            advice: Advice::DontNeed,
        },
    }
}

/// Why a file is turned away before any of it is read or changed, if it is:
/// the handle is read-only, or the mapping cannot contain the file.
pub open spec fn open_refusal(writable: bool, len: nat, elem_size: nat, ceiling: u64) -> Option<
    OpenError,
> {
    if !writable {
        Some(OpenError::Permission)
    } else if len == 0 {
        if fits(file_len(INITIAL_SLOTS as nat, elem_size), ceiling) {
            None
        } else {
            Some(OpenError::Mapping)
        }
    } else if len <= ceiling {
        None
    } else {
        Some(OpenError::Mapping)
    }
}

/// The plan by which a file of `len` bytes is opened.
pub open spec fn open_plan(len: nat, elem_size: nat) -> OpenPlan {
    if len == 0 {
        OpenPlan::Initialize {
            len: file_len(INITIAL_SLOTS as nat, elem_size) as usize,
            capacity: INITIAL_SLOTS,
        }
    } else {
        OpenPlan::Attach { capacity: capacity_of(len, elem_size) as usize }
    }
}

/// The header bytes belong to a vector with room for `capacity` records.
pub open spec fn header_accepted(bytes: Seq<u8>, capacity: nat) -> bool {
    &&& has_magic(bytes)
    &&& bytes.len() >= RESERVED_OFFSET
    &&& stored_len(bytes) <= capacity
}

/// Plans the opening of a file of `len` bytes for records of `elem_size`
/// bytes, under a mapping of `ceiling` bytes.
///
/// A read-only handle is turned away whatever the file holds. For a
/// writable one the records must have a size, and a file that is not empty
/// must be a header page followed by whole records.
pub fn plan_open(writable: bool, len: usize, elem_size: usize, ceiling: u64) -> (r: Result<
    OpenPlan,
    OpenError,
>)
    requires
        writable ==> elem_size > 0 && (len == 0 || well_sized(len as nat, elem_size as nat)),
    ensures
        r == match open_refusal(writable, len as nat, elem_size as nat, ceiling) {
            Some(e) => Err::<OpenPlan, OpenError>(e),
            None => Ok::<OpenPlan, OpenError>(open_plan(len as nat, elem_size as nat)),
        },
{
    if !writable {
        return Err(OpenError::Permission);
    }
    if len == 0 {
        match checked_file_len(INITIAL_SLOTS, elem_size, ceiling) {
            Some(initial) => Ok(OpenPlan::Initialize { len: initial, capacity: INITIAL_SLOTS }),
            None => Err(OpenError::Mapping),
        }
    } else if len as u64 <= ceiling {
        Ok(OpenPlan::Attach { capacity: capacity_for(len, elem_size) })
    } else {
        Err(OpenError::Mapping)
    }
}

/// Plans the paging hints for a mapping of `ceiling` bytes that was just
/// made over a file with room for `capacity` records.
pub fn plan_open_hints(capacity: usize, elem_size: usize, ceiling: u64) -> (hints: OpenHints)
    requires
        fits(file_len(capacity as nat, elem_size as nat), ceiling),
        ceiling <= usize::MAX,
    ensures
        hints == open_hints(capacity as nat, elem_size as nat, ceiling),
{
    assert(capacity * elem_size >= 0) by (nonlinear_arith)
        requires
            capacity >= 0,
            elem_size >= 0,
    ;
    let data: usize = capacity * elem_size;
    let end: usize = HEADER_SIZE + data;
    OpenHints {
        header: Hint { offset: 0, len: HEADER_SIZE, advice: Advice::WillNeed },
        records: Hint { offset: HEADER_SIZE, len: data, advice: Advice::WillNeed },
        reserve: Hint { offset: end, len: ceiling as usize - end, advice: Advice::DontNeed },
    }
}

/// Validates the header of an existing file with room for `capacity`
/// records, and gives the number of records that it holds.
pub fn validate_header(bytes: &[u8], capacity: usize) -> (r: Result<usize, OpenError>)
    ensures
        r == if header_accepted(bytes@, capacity as nat) {
            Ok::<usize, OpenError>(stored_len(bytes@) as usize)
        } else {
            Err::<usize, OpenError>(OpenError::CorruptHeader)
        },
{
    match decode_header(bytes) {
        Ok(len) => if len <= capacity as u64 {
            Ok(len as usize)
        } else {
            Err(OpenError::CorruptHeader)
        },
        Err(e) => Err(e),
    }
}

} // verus!
