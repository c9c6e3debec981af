use vstd::prelude::*;
use crate::error::AllocationError;
use crate::layout::{checked_file_len, file_len, fits, slot_offset, HEADER_SIZE};
use crate::paging::{Advice, Hint};

verus! {

/// What growing a full vector asks of the operating system.
#[derive(Debug, Clone, Copy, PartialEq, Eq, Structural)]
pub struct GrowthPlan {
    /// The capacity once the allocation has succeeded.
    pub new_capacity: usize,
    /// Where the allocation starts: the current end of the file.
    pub offset: usize,
    /// How many bytes to allocate.
    pub len: usize,
    /// The records written so far, no longer where appends go.
    pub cold: Hint,
    /// The allocated range, where the next appends go.
    pub frontier: Hint,
}

/// What appending one record takes.
#[derive(Debug, Clone, Copy, PartialEq, Eq, Structural)]
pub struct PushPlan {
    /// The growth to carry out first, where the vector is full.
    pub growth: Option<GrowthPlan>,
    /// Where in the file the record goes.
    pub offset: usize,
    /// The record count to store in the header afterwards.
    pub new_len: u64,
}

/// Why a vector of `capacity` records cannot double, if it cannot.
pub open spec fn growth_refusal(capacity: nat, elem_size: nat, ceiling: u64) -> Option<
    AllocationError,
> {
    if capacity * elem_size == 0 {
        Some(AllocationError::EmptyRange)
    } else if !fits(file_len(2 * capacity, elem_size), ceiling) {
        Some(AllocationError::CeilingReached)
    } else {
        None
    }
}

/// The plan by which a vector of `capacity` records doubles: the file is
/// extended in place by as many bytes as its records take now.
pub open spec fn growth_plan(capacity: nat, elem_size: nat) -> GrowthPlan {
    GrowthPlan {
        new_capacity: (2 * capacity) as usize,
        offset: file_len(capacity, elem_size) as usize,
        len: (capacity * elem_size) as usize,
        cold: Hint {
            offset: HEADER_SIZE,
            len: (capacity * elem_size) as usize,
            advice: Advice::Random,
        },
        frontier: Hint {
            offset: file_len(capacity, elem_size) as usize,
            len: (capacity * elem_size) as usize,
            advice: Advice::Sequential,
        },
    }
}

/// Why a record cannot be appended, if it cannot: there is no room and the
/// vector cannot double.
pub open spec fn push_refusal(len: nat, capacity: nat, elem_size: nat, ceiling: u64) -> Option<
    AllocationError,
> {
    if len < capacity {
        None
    } else {
        growth_refusal(capacity, elem_size, ceiling)
    }
}

/// The plan by which a record is appended to a vector of `len` records.
pub open spec fn push_plan(len: nat, capacity: nat, elem_size: nat) -> PushPlan {
    PushPlan {
        growth: if len < capacity {
            None
        } else {
            Some(growth_plan(capacity, elem_size))
        },
        offset: slot_offset(len, elem_size) as usize,
        new_len: (len + 1) as u64,
    }
}

/// Doubling the capacity doubles the record bytes: the allocation is as long
/// as the records so far and ends where the doubled file ends.
pub proof fn lemma_growth_arith(capacity: nat, elem_size: nat)
    ensures
        file_len(capacity, elem_size) + capacity * elem_size == file_len(2 * capacity, elem_size),
        file_len(capacity, elem_size) <= file_len(2 * capacity, elem_size),
{
    assert((2 * capacity) * elem_size == 2 * (capacity * elem_size)) by (nonlinear_arith);
    assert(capacity * elem_size >= 0) by (nonlinear_arith);
}

/// Plans the doubling of a vector of `capacity` records of `elem_size`
/// bytes, under a mapping of `ceiling` bytes.
pub fn plan_growth(capacity: usize, elem_size: usize, ceiling: u64) -> (r: Result<
    GrowthPlan,
    AllocationError,
>)
    ensures
        r == match growth_refusal(capacity as nat, elem_size as nat, ceiling) {
            Some(e) => Err::<GrowthPlan, AllocationError>(e),
            None => Ok::<GrowthPlan, AllocationError>(
                growth_plan(capacity as nat, elem_size as nat),
            ),
        },
{
    proof {
        lemma_growth_arith(capacity as nat, elem_size as nat);
        assert(capacity * elem_size == 0 <==> (capacity == 0 || elem_size == 0))
            by (nonlinear_arith);
    }
    if capacity == 0 || elem_size == 0 {
        return Err(AllocationError::EmptyRange);
    }
    let new_capacity: usize = match capacity.checked_mul(2) {
        Some(c) => c,
        None => {
            assert(file_len(2 * (capacity as nat), elem_size as nat) >= 2 * capacity)
                by (nonlinear_arith)
                requires
                    elem_size >= 1,
                    file_len(2 * (capacity as nat), elem_size as nat) == HEADER_SIZE + (2
                        * capacity) * elem_size,
            ;
            return Err(AllocationError::CeilingReached);
        },
    };
    let new_len: usize = match checked_file_len(new_capacity, elem_size, ceiling) {
        Some(l) => l,
        None => {
            return Err(AllocationError::CeilingReached);
        },
    };
    let len: usize = capacity * elem_size;
    let offset: usize = HEADER_SIZE + len;
    Ok(
        GrowthPlan {
            new_capacity,
            offset,
            len,
            cold: Hint { offset: HEADER_SIZE, len, advice: Advice::Random },
            frontier: Hint { offset, len, advice: Advice::Sequential },
        },
    )
}

/// Plans the append of one record to a vector of `len` records with room
/// for `capacity`.
pub fn plan_push(len: usize, capacity: usize, elem_size: usize, ceiling: u64) -> (r: Result<
    PushPlan,
    AllocationError,
>)
    requires
        len <= capacity,
        file_len(capacity as nat, elem_size as nat) <= usize::MAX,
    ensures
        r == match push_refusal(len as nat, capacity as nat, elem_size as nat, ceiling) {
            Some(e) => Err::<PushPlan, AllocationError>(e),
            None => Ok::<PushPlan, AllocationError>(
                push_plan(len as nat, capacity as nat, elem_size as nat),
            ),
        },
{
    let growth: Option<GrowthPlan> = if len < capacity {
        None
    } else {
        match plan_growth(capacity, elem_size, ceiling) {
            Ok(plan) => Some(plan),
            Err(e) => {
                return Err(e);
            },
        }
    };
    proof {
        lemma_growth_arith(capacity as nat, elem_size as nat);
        assert(len * elem_size <= capacity * elem_size) by (nonlinear_arith)
            requires
                len <= capacity,
        ;
        assert(len * elem_size >= 0) by (nonlinear_arith);
        if len == capacity {
            assert(len + 1 <= file_len(2 * (capacity as nat), elem_size as nat))
                by (nonlinear_arith)
                requires
                    len == capacity,
                    capacity * elem_size != 0,
                    file_len(2 * (capacity as nat), elem_size as nat) == HEADER_SIZE + (2
                        * capacity) * elem_size,
            ;
        }
    }
    let offset: usize = HEADER_SIZE + len * elem_size;
    Ok(PushPlan { growth, offset, new_len: (len + 1) as u64 })
}

} // verus!
