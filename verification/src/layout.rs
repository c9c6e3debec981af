use vstd::prelude::*;

verus! {

/// Bytes of the header page at the start of the file.
pub const HEADER_SIZE: usize = 4096;

/// Record slots that a freshly initialised file has room for.
pub const INITIAL_SLOTS: usize = 32;

/// Bytes of address space that one mapping reserves unless told otherwise
/// (1 TiB).
pub const MAPPING_CEILING: u64 = 0x100_0000_0000;

/// Length of a file with room for `capacity` records of `elem_size` bytes.
pub open spec fn file_len(capacity: nat, elem_size: nat) -> nat {
    HEADER_SIZE as nat + capacity * elem_size
}

/// Offset in the file of the record slot `index`.
pub open spec fn slot_offset(index: nat, elem_size: nat) -> nat {
    HEADER_SIZE as nat + index * elem_size
}

/// A file of `len` bytes is a header page followed by whole records.
pub open spec fn well_sized(len: nat, elem_size: nat) -> bool {
    &&& elem_size > 0
    &&& len >= HEADER_SIZE
    &&& (len - HEADER_SIZE) % (elem_size as int) == 0
}

/// Number of record slots in a file of `len` bytes.
pub open spec fn capacity_of(len: nat, elem_size: nat) -> nat
    recommends
        well_sized(len, elem_size),
{
    ((len - HEADER_SIZE) / (elem_size as int)) as nat
}

/// A well-sized file is exactly as long as its capacity says.
pub proof fn lemma_capacity_of_file_len(len: nat, elem_size: nat)
    requires
        well_sized(len, elem_size),
    ensures
        file_len(capacity_of(len, elem_size), elem_size) == len,
{
    let d = len - HEADER_SIZE;
    let e = elem_size as int;
    assert(d == e * (d / e) + d % e) by {
        vstd::arithmetic::div_mod::lemma_fundamental_div_mod(d, e);
    }
    assert(d / e >= 0) by {
        vstd::arithmetic::div_mod::lemma_div_pos_is_pos(d, e);
    }
    assert(e * (d / e) == (d / e) * e) by (nonlinear_arith);
}

/// A file laid out for `capacity` records is well sized, with that capacity.
pub proof fn lemma_file_len_capacity_of(capacity: nat, elem_size: nat)
    requires
        elem_size > 0,
    ensures
        well_sized(file_len(capacity, elem_size), elem_size),
        capacity_of(file_len(capacity, elem_size), elem_size) == capacity,
{
    let e = elem_size as int;
    let c = capacity as int;
    assert((c * e) % e == 0) by {
        vstd::arithmetic::div_mod::lemma_mod_multiples_basic(c, e);
    }
    assert((c * e) / e == c) by {
        vstd::arithmetic::div_mod::lemma_div_multiples_vanish(c, e);
    }
}

/// Of two slots, the one with the lower index ends before the other starts.
pub proof fn lemma_slots_apart(i: nat, j: nat, elem_size: nat)
    requires
        i < j,
    ensures
        slot_offset(i, elem_size) + elem_size <= slot_offset(j, elem_size),
        slot_offset(i, elem_size) >= HEADER_SIZE,
{
    assert((i + 1) * elem_size == i * elem_size + elem_size) by (nonlinear_arith);
    assert((i + 1) * elem_size <= j * elem_size) by (nonlinear_arith)
        requires
            i + 1 <= j,
    ;
    assert(i * elem_size >= 0) by (nonlinear_arith);
}

/// A slot below the capacity lies wholly inside the file, behind the header
/// page and before the slot that follows it.
pub proof fn lemma_slot_in_file(index: nat, capacity: nat, elem_size: nat)
    requires
        index < capacity,
    ensures
        slot_offset(index, elem_size) >= HEADER_SIZE,
        slot_offset(index, elem_size) + elem_size == slot_offset(index + 1, elem_size),
        slot_offset(index, elem_size) + elem_size <= file_len(capacity, elem_size),
{
    assert((index + 1) * elem_size == index * elem_size + elem_size) by (nonlinear_arith);
    assert((index + 1) * elem_size <= capacity * elem_size) by (nonlinear_arith)
        requires
            index + 1 <= capacity,
    ;
    assert(index * elem_size >= 0) by (nonlinear_arith);
}

/// A file of `len` bytes lies within a mapping of `ceiling` bytes and can be
/// addressed on this machine.
pub open spec fn fits(len: nat, ceiling: u64) -> bool {
    len <= ceiling && len <= usize::MAX
}

/// The length of a file for `capacity` records, where it fits under `ceiling`.
pub fn checked_file_len(capacity: usize, elem_size: usize, ceiling: u64) -> (r: Option<usize>)
    ensures
        r == if fits(file_len(capacity as nat, elem_size as nat), ceiling) {
            Some(file_len(capacity as nat, elem_size as nat) as usize)
        } else {
            None::<usize>
        },
{
    assert(capacity * elem_size >= 0) by (nonlinear_arith)
        requires
            capacity >= 0,
            elem_size >= 0,
    ;
    match capacity.checked_mul(elem_size) {
        Some(data) => match data.checked_add(HEADER_SIZE) {
            Some(len) => if len as u64 <= ceiling {
                Some(len)
            } else {
                None
            },
            None => None,
        },
        None => None,
    }
}

/// Whether a file of `len` bytes is a header page followed by whole records.
pub fn is_well_sized(len: usize, elem_size: usize) -> (r: bool)
    ensures
        r == well_sized(len as nat, elem_size as nat),
{
    elem_size > 0 && len >= HEADER_SIZE && (len - HEADER_SIZE) % elem_size == 0
}

/// The number of record slots in a well-sized file of `len` bytes.
pub fn capacity_for(len: usize, elem_size: usize) -> (r: usize)
    requires
        well_sized(len as nat, elem_size as nat),
    ensures
        r == capacity_of(len as nat, elem_size as nat),
        file_len(r as nat, elem_size as nat) == len,
{
    proof {
        lemma_capacity_of_file_len(len as nat, elem_size as nat);
    }
    (len - HEADER_SIZE) / elem_size
}

/// The offset in the file of the record slot `index`, in a file with room
/// for `capacity` records.
pub fn slot_position(index: usize, capacity: usize, elem_size: usize) -> (r: usize)
    requires
        index < capacity,
        file_len(capacity as nat, elem_size as nat) <= usize::MAX,
    ensures
        r == slot_offset(index as nat, elem_size as nat),
        r + elem_size <= file_len(capacity as nat, elem_size as nat),
{
    proof {
        lemma_slot_in_file(index as nat, capacity as nat, elem_size as nat);
    }
    HEADER_SIZE + index * elem_size
}

} // verus!
