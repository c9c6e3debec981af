use vstd::prelude::*;
use vstd::bytes::{lemma_auto_spec_u64_to_from_le_bytes, spec_u64_to_le_bytes};
use crate::file::{extended, overwritten};
use crate::growth::lemma_growth_arith;
use crate::header::{has_magic, header_page, lemma_header_roundtrip, stored_len, LEN_OFFSET};
use crate::layout::{
    capacity_of, file_len, lemma_capacity_of_file_len, lemma_file_len_capacity_of,
    lemma_slot_in_file, lemma_slots_apart, slot_offset, well_sized, INITIAL_SLOTS,
};

verus! {

/// The bytes of the record slot `index` in a file image.
pub open spec fn slot(image: Seq<u8>, index: nat, elem_size: nat) -> Seq<u8> {
    image.subrange(
        slot_offset(index, elem_size) as int,
        (slot_offset(index, elem_size) + elem_size) as int,
    )
}

/// The records that a file image holds: as many slots as its header counts,
/// in the order of their appending.
pub open spec fn records(image: Seq<u8>, elem_size: nat) -> Seq<Seq<u8>> {
    Seq::new(stored_len(image) as nat, |i: int| slot(image, i as nat, elem_size))
}

/// The image is a header page with the signature, followed by whole record
/// slots, of which the header counts no more than there are.
pub open spec fn valid_image(image: Seq<u8>, elem_size: nat) -> bool {
    &&& well_sized(image.len(), elem_size)
    &&& has_magic(image)
    &&& stored_len(image) <= capacity_of(image.len(), elem_size)
}

/// `n` zero bytes.
pub open spec fn zeros(n: nat) -> Seq<u8> {
    Seq::new(n, |i: int| 0u8)
}

/// The image of a freshly initialised file: the header of an empty vector
/// and the initial slots, all zero.
pub open spec fn fresh_image(elem_size: nat) -> Seq<u8> {
    header_page(0) + zeros(INITIAL_SLOTS as nat * elem_size)
}

/// The image with another record count in its header.
pub open spec fn with_len(image: Seq<u8>, len: u64) -> Seq<u8> {
    overwritten(image, LEN_OFFSET as nat, spec_u64_to_le_bytes(len))
}

/// The image, grown to twice its capacity where every slot is taken.
pub open spec fn with_room(image: Seq<u8>, elem_size: nat) -> Seq<u8> {
    let capacity = capacity_of(image.len(), elem_size);
    if stored_len(image) < capacity {
        image
    } else {
        extended(image, file_len(2 * capacity, elem_size))
    }
}

/// The image after `value` was appended: grown first where it was full, then
/// the record written into the first free slot, then the count raised by one.
pub open spec fn pushed(image: Seq<u8>, value: Seq<u8>, elem_size: nat) -> Seq<u8> {
    let len = stored_len(image);
    with_len(
        overwritten(with_room(image, elem_size), slot_offset(len as nat, elem_size), value),
        (len + 1) as u64,
    )
}

/// The image after each of `values` was appended in turn.
pub open spec fn pushed_all(image: Seq<u8>, values: Seq<Seq<u8>>, elem_size: nat) -> Seq<u8>
    decreases values.len(),
{
    if values.len() == 0 {
        image
    } else {
        pushed(pushed_all(image, values.drop_last(), elem_size), values.last(), elem_size)
    }
}

/// A freshly initialised file is valid, has the initial capacity and holds
/// no record; all its slots are zero.
pub proof fn lemma_fresh_image(elem_size: nat)
    requires
        elem_size > 0,
    ensures
        fresh_image(elem_size).len() == file_len(INITIAL_SLOTS as nat, elem_size),
        valid_image(fresh_image(elem_size), elem_size),
        capacity_of(fresh_image(elem_size).len(), elem_size) == INITIAL_SLOTS,
        records(fresh_image(elem_size), elem_size) == Seq::<Seq<u8>>::empty(),
        forall|i: nat|
            i < INITIAL_SLOTS ==> #[trigger] slot(fresh_image(elem_size), i, elem_size) == zeros(
                elem_size,
            ),
        fresh_image(elem_size) == overwritten(
            extended(Seq::<u8>::empty(), file_len(INITIAL_SLOTS as nat, elem_size)),
            0,
            header_page(0),
        ),
{
    let image = fresh_image(elem_size);
    lemma_header_roundtrip(0);
    lemma_file_len_capacity_of(INITIAL_SLOTS as nat, elem_size);
    assert(INITIAL_SLOTS as nat * elem_size >= 0) by (nonlinear_arith);
    assert(image.subrange(0, LEN_OFFSET as int) =~= header_page(0).subrange(0, LEN_OFFSET as int));
    assert(image.subrange(8, 16) =~= header_page(0).subrange(8, 16));
    assert(records(image, elem_size) =~= Seq::<Seq<u8>>::empty());
    assert forall|i: nat| i < INITIAL_SLOTS implies #[trigger] slot(image, i, elem_size) == zeros(
        elem_size,
    ) by {
        lemma_slot_in_file(i, INITIAL_SLOTS as nat, elem_size);
        assert(slot(image, i, elem_size) =~= zeros(elem_size));
    }
    assert(image =~= overwritten(
        extended(Seq::<u8>::empty(), file_len(INITIAL_SLOTS as nat, elem_size)),
        0,
        header_page(0),
    ));
}

/// Appending keeps the image valid, adds the record at the end of those it
/// holds, and leaves every other slot as it was; where the image was full,
/// the capacity doubles and the new slots are zero.
pub proof fn lemma_pushed(image: Seq<u8>, value: Seq<u8>, elem_size: nat)
    requires
        valid_image(image, elem_size),
        value.len() == elem_size,
        stored_len(image) < u64::MAX,
        stored_len(image) < capacity_of(image.len(), elem_size) || capacity_of(
            image.len(),
            elem_size,
        ) > 0,
    ensures
        valid_image(pushed(image, value, elem_size), elem_size),
        stored_len(pushed(image, value, elem_size)) == stored_len(image) + 1,
        records(pushed(image, value, elem_size), elem_size) == records(image, elem_size).push(
            value,
        ),
        capacity_of(pushed(image, value, elem_size).len(), elem_size) == if stored_len(image)
            < capacity_of(image.len(), elem_size) {
            capacity_of(image.len(), elem_size)
        } else {
            2 * capacity_of(image.len(), elem_size)
        },
        pushed(image, value, elem_size).len() == with_room(image, elem_size).len(),
        slot(pushed(image, value, elem_size), stored_len(image) as nat, elem_size) == value,
        forall|i: nat|
            i < capacity_of(image.len(), elem_size) && i != stored_len(image) ==> #[trigger] slot(
                pushed(image, value, elem_size),
                i,
                elem_size,
            ) == slot(image, i, elem_size),
        forall|i: nat|
            capacity_of(image.len(), elem_size) <= i < capacity_of(
                pushed(image, value, elem_size).len(),
                elem_size,
            ) && i != stored_len(image) ==> #[trigger] slot(
                pushed(image, value, elem_size),
                i,
                elem_size,
            ) == zeros(elem_size),
{
    lemma_auto_spec_u64_to_from_le_bytes();
    let len = stored_len(image) as nat;
    let cap = capacity_of(image.len(), elem_size);
    let new_cap = if len < cap {
        cap
    } else {
        2 * cap
    };
    let count = spec_u64_to_le_bytes((len + 1) as u64);
    let after = pushed(image, value, elem_size);
    lemma_capacity_of_file_len(image.len(), elem_size);
    lemma_growth_arith(cap, elem_size);
    lemma_file_len_capacity_of(new_cap, elem_size);
    lemma_slot_in_file(len, new_cap, elem_size);
    assert(after.subrange(0, LEN_OFFSET as int) =~= image.subrange(0, LEN_OFFSET as int));
    assert(after.subrange(8, 16) =~= count);
    assert(slot(after, len, elem_size) =~= value);
    assert forall|i: nat| i < new_cap && i != len implies #[trigger] slot(after, i, elem_size)
        == if i < cap {
        slot(image, i, elem_size)
    } else {
        zeros(elem_size)
    } by {
        lemma_slot_in_file(i, new_cap, elem_size);
        if i < len {
            lemma_slots_apart(i, len, elem_size);
        } else {
            lemma_slots_apart(len, i, elem_size);
        }
        if i < cap {
            lemma_slot_in_file(i, cap, elem_size);
            assert(slot(after, i, elem_size) =~= slot(image, i, elem_size));
        } else {
            if cap < i {
                lemma_slots_apart(cap, i, elem_size);
            }
            assert(slot(after, i, elem_size) =~= zeros(elem_size));
        }
    }
    assert(records(after, elem_size) =~= records(image, elem_size).push(value));
}

} // verus!
