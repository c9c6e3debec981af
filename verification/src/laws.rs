use vstd::prelude::*;
use vstd::arithmetic::power2::{lemma2_to64, lemma_pow2_pos, lemma_pow2_unfold, pow2};
use crate::growth::lemma_growth_arith;
use crate::header::stored_len;
use crate::image::{
    fresh_image, lemma_fresh_image, lemma_pushed, pushed_all, records, slot, valid_image,
    with_room,
};
use crate::layout::{
    capacity_of, file_len, lemma_capacity_of_file_len, lemma_slot_in_file, INITIAL_SLOTS,
};
use crate::vector::{open_error, opened_image, FileMappedVector};

verus! {

/// Whatever is appended is kept, in order: after any sequence of appends the
/// file holds the records it held before, followed by the appended ones, its
/// header counts them all, and its capacity is the capacity it started
/// with, doubled some number of times.
pub proof fn law_appends_are_kept(image: Seq<u8>, values: Seq<Seq<u8>>, elem_size: nat)
    requires
        valid_image(image, elem_size),
        capacity_of(image.len(), elem_size) > 0,
        forall|i: int| 0 <= i < values.len() ==> (#[trigger] values[i]).len() == elem_size,
        stored_len(image) + values.len() <= u64::MAX,
    ensures
        valid_image(pushed_all(image, values, elem_size), elem_size),
        stored_len(pushed_all(image, values, elem_size)) == stored_len(image) + values.len(),
        records(pushed_all(image, values, elem_size), elem_size) == records(image, elem_size)
            + values,
        exists|k: nat|
            capacity_of(pushed_all(image, values, elem_size).len(), elem_size) == capacity_of(
                image.len(),
                elem_size,
            ) * #[trigger] pow2(k),
    decreases values.len(),
{
    let cap = capacity_of(image.len(), elem_size);
    let after = pushed_all(image, values, elem_size);
    if values.len() == 0 {
        lemma2_to64();
        assert(cap == cap * pow2(0)) by (nonlinear_arith)
            requires
                pow2(0) == 1,
        ;
        assert(records(image, elem_size) + values =~= records(image, elem_size));
    } else {
        let front = values.drop_last();
        let prev = pushed_all(image, front, elem_size);
        law_appends_are_kept(image, front, elem_size);
        let k = choose|k: nat|
            capacity_of(prev.len(), elem_size) == cap * #[trigger] pow2(k);
        lemma_pow2_pos(k);
        assert(cap * pow2(k) > 0) by (nonlinear_arith)
            requires
                cap > 0,
                pow2(k) > 0,
        ;
        lemma_pushed(prev, values.last(), elem_size);
        assert(records(after, elem_size) =~= records(image, elem_size) + values) by {
            assert(values =~= front.push(values.last()));
            assert((records(image, elem_size) + front).push(values.last()) =~= records(
                image,
                elem_size,
            ) + front.push(values.last()));
        }
        if stored_len(prev) < capacity_of(prev.len(), elem_size) {
            assert(capacity_of(after.len(), elem_size) == cap * pow2(k));
        } else {
            lemma_pow2_unfold(k + 1);
            assert(2 * (cap * pow2(k)) == cap * (2 * pow2(k))) by (nonlinear_arith);
            assert(capacity_of(after.len(), elem_size) == cap * pow2(k + 1));
        }
    }
}

/// A freshly initialised file that is appended to holds exactly what was
/// appended: as many records as there were appends, each at the position of
/// its appending.
pub proof fn law_fresh_file_holds_appends(values: Seq<Seq<u8>>, elem_size: nat)
    requires
        elem_size > 0,
        forall|i: int| 0 <= i < values.len() ==> (#[trigger] values[i]).len() == elem_size,
        values.len() <= u64::MAX,
    ensures
        records(pushed_all(fresh_image(elem_size), values, elem_size), elem_size) == values,
        stored_len(pushed_all(fresh_image(elem_size), values, elem_size)) == values.len(),
        exists|k: nat|
            capacity_of(
                pushed_all(fresh_image(elem_size), values, elem_size).len(),
                elem_size,
            ) == INITIAL_SLOTS * #[trigger] pow2(k),
{
    lemma_fresh_image(elem_size);
    assert(stored_len(fresh_image(elem_size)) == 0) by {
        assert(records(fresh_image(elem_size), elem_size).len() == 0);
    }
    law_appends_are_kept(fresh_image(elem_size), values, elem_size);
    assert(Seq::<Seq<u8>>::empty() + values =~= values);
}

/// Growth moves nothing: the grown file starts with the bytes it had, so
/// its header, its count and every slot it had hold what they held.
pub proof fn law_growth_moves_nothing(image: Seq<u8>, elem_size: nat)
    requires
        valid_image(image, elem_size),
    ensures
        with_room(image, elem_size).subrange(0, image.len() as int) == image,
        stored_len(with_room(image, elem_size)) == stored_len(image),
        records(with_room(image, elem_size), elem_size) == records(image, elem_size),
        forall|i: nat|
            i < capacity_of(image.len(), elem_size) ==> #[trigger] slot(
                with_room(image, elem_size),
                i,
                elem_size,
            ) == slot(image, i, elem_size),
{
    let cap = capacity_of(image.len(), elem_size);
    let grown = with_room(image, elem_size);
    lemma_capacity_of_file_len(image.len(), elem_size);
    lemma_growth_arith(cap, elem_size);
    assert(grown.subrange(0, image.len() as int) =~= image);
    assert(grown.subrange(8, 16) =~= image.subrange(8, 16));
    assert forall|i: nat| i < cap implies #[trigger] slot(grown, i, elem_size) == slot(
        image,
        i,
        elem_size,
    ) by {
        lemma_slot_in_file(i, cap, elem_size);
        assert(slot(grown, i, elem_size) =~= slot(image, i, elem_size));
    }
    assert(records(grown, elem_size) =~= records(image, elem_size));
}

/// The capacity never falls behind the length, and is always the capacity
/// that the vector was opened with times a power of two.
pub proof fn law_capacity<const N: usize>(v: FileMappedVector<N>)
    requires
        v.wf(),
    ensures
        v@.len() <= v.spec_capacity(),
        v.spec_capacity() == v.opened_capacity() * pow2(v.doublings()),
        v.image().len() == file_len(v.spec_capacity(), N as nat),
{
    lemma_capacity_of_file_len(v.image().len(), N as nat);
}

/// A vector that is disposed of and opened again is the same vector: its
/// file is accepted under any mapping that contains it and is attached to
/// as it is, so the length and the record at every index are what they were.
pub proof fn law_reopen_preserves<const N: usize>(v: FileMappedVector<N>)
    requires
        v.wf(),
    ensures
        forall|ceiling: u64|
            v.image().len() <= ceiling ==> #[trigger] open_error(v.backing(), N as nat, ceiling)
                is None,
        open_error(v.backing(), N as nat, v.ceiling()) is None,
        opened_image(v.backing().bytes@, N as nat) == v.image(),
        records(opened_image(v.backing().bytes@, N as nat), N as nat) == v@,
{
}

} // verus!
