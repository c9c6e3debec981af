use vstd::prelude::*;
use vstd::arithmetic::power2::{lemma2_to64, lemma_pow2_unfold, pow2};
use vstd::bytes::{lemma_auto_spec_u64_to_from_le_bytes, u64_to_le_bytes};
use crate::error::{AllocationError, OpenError};
use crate::file::{refusal, BackingFile};
use crate::growth::{lemma_growth_arith, plan_push, push_refusal};
use crate::header::{encode_header, lemma_header_roundtrip, read_len, stored_len, LEN_OFFSET};
use crate::image::{
    fresh_image, lemma_fresh_image, lemma_pushed, pushed, records, slot, valid_image, zeros,
};
use crate::layout::{
    capacity_of, file_len, fits, lemma_capacity_of_file_len, lemma_slot_in_file, slot_position,
    well_sized, INITIAL_SLOTS, MAPPING_CEILING,
};
use crate::open::{header_accepted, open_refusal, plan_open, validate_header, OpenPlan};

verus! {

/// An append-only vector of records of `N` bytes that lives in a file.
///
/// Its length is the count in the file's header; its capacity is the number
/// of record slots that the file has. Appending to a full vector doubles the
/// file in place: no record moves.
pub struct FileMappedVector<const N: usize> {
    file: BackingFile,
    capacity: usize,
    ceiling: u64,
    opened: Ghost<nat>,
    doublings: Ghost<nat>,
}

/// A file that could not be opened, handed back as it was given.
#[derive(Debug, PartialEq, Eq)]
pub struct Rejected {
    pub error: OpenError,
    pub file: BackingFile,
}

/// Why `file` cannot be opened as a vector of records of `elem_size` bytes
/// under a mapping of `ceiling` bytes, if it cannot.
pub open spec fn open_error(file: BackingFile, elem_size: nat, ceiling: u64) -> Option<OpenError> {
    let len = file.bytes@.len();
    match open_refusal(file.writable, len, elem_size, ceiling) {
        Some(e) => Some(e),
        None => if len == 0 {
            match refusal(file.limit as nat, 0, file_len(INITIAL_SLOTS as nat, elem_size)) {
                Some(e) => Some(OpenError::Allocation(e)),
                None => None,
            }
        } else if header_accepted(file.bytes@, capacity_of(len, elem_size)) {
            None
        } else {
            Some(OpenError::CorruptHeader)
        },
    }
}

/// The bytes of a file once it was opened: an empty file is initialised, any
/// other is left as it is.
pub open spec fn opened_image(bytes: Seq<u8>, elem_size: nat) -> Seq<u8> {
    if bytes.len() == 0 {
        fresh_image(elem_size)
    } else {
        bytes
    }
}

impl<const N: usize> FileMappedVector<N> {
    /// The file behind the vector, as it stands now.
    pub closed spec fn backing(&self) -> BackingFile {
        self.file
    }

    /// The bytes of the file behind the vector.
    pub open spec fn image(&self) -> Seq<u8> {
        self.backing().bytes@
    }

    /// The number of record slots that the file has.
    pub closed spec fn spec_capacity(&self) -> nat {
        self.capacity as nat
    }

    /// The size of the mapping that the vector was opened under.
    pub closed spec fn ceiling(&self) -> u64 {
        self.ceiling
    }

    /// The capacity that the vector was opened with.
    pub closed spec fn opened_capacity(&self) -> nat {
        self.opened@
    }

    /// How often the vector has grown since it was opened.
    pub closed spec fn doublings(&self) -> nat {
        self.doublings@
    }

    /// The number of records appended so far.
    pub open spec fn spec_len(&self) -> nat {
        stored_len(self.image()) as nat
    }

    /// The bytes in the record slot `index`.
    pub open spec fn slot(&self, index: nat) -> Seq<u8> {
        slot(self.image(), index, N as nat)
    }

    /// The vector is attached to a writable, valid file that its mapping
    /// contains; its capacity is that of the file, and is the capacity it
    /// was opened with, doubled once for each growth.
    pub open spec fn wf(&self) -> bool {
        &&& self.backing().writable
        &&& valid_image(self.image(), N as nat)
        &&& fits(self.image().len(), self.ceiling())
        &&& self.spec_capacity() == capacity_of(self.image().len(), N as nat)
        &&& self.spec_capacity() == self.opened_capacity() * pow2(self.doublings())
    }

    /// Why the next append fails, if it does: the vector is full, and either
    /// cannot double or the store refuses the allocation.
    pub open spec fn push_error(&self) -> Option<AllocationError> {
        match push_refusal(self.spec_len(), self.spec_capacity(), N as nat, self.ceiling()) {
            Some(e) => Some(e),
            None => if self.spec_len() < self.spec_capacity() {
                None
            } else {
                refusal(
                    self.backing().limit as nat,
                    file_len(self.spec_capacity(), N as nat),
                    self.spec_capacity() * N as nat,
                )
            },
        }
    }

    /// Opens `file` under a mapping of `ceiling` bytes.
    ///
    /// An empty file is extended to a header page and the initial slots, and
    /// gets the header of an empty vector. Any other file is attached to as
    /// it is, once its header is found valid. A file that is turned away
    /// comes back unchanged.
    pub fn with_ceiling(file: BackingFile, ceiling: u64) -> (r: Result<Self, Rejected>)
        requires
            file.writable ==> N > 0 && (file.bytes@.len() == 0 || well_sized(
                file.bytes@.len(),
                N as nat,
            )),
        ensures
            match r {
                Ok(v) => {
                    &&& open_error(file, N as nat, ceiling) is None
                    &&& v.wf()
                    &&& v.image() == opened_image(file.bytes@, N as nat)
                    &&& v.backing().limit == file.limit
                    &&& v.ceiling() == ceiling
                    &&& v.opened_capacity() == v.spec_capacity()
                    &&& v.doublings() == 0
                    &&& file.bytes@.len() == 0 ==> v@ == Seq::<Seq<u8>>::empty()
                        && v.spec_capacity() == INITIAL_SLOTS
                },
                Err(rejected) => {
                    &&& open_error(file, N as nat, ceiling) == Some(rejected.error)
                    &&& rejected.file == file
                },
            },
    {
        let mut file = file;
        let plan = match plan_open(file.writable, file.bytes.len(), N, ceiling) {
            Ok(plan) => plan,
            Err(error) => {
                return Err(Rejected { error, file });
            },
        };
        let capacity: usize = match plan {
            OpenPlan::Initialize { len, capacity } => {
                match file.allocate(0, len) {
                    Ok(()) => {},
                    Err(e) => {
                        return Err(Rejected { error: OpenError::Allocation(e), file });
                    },
                }
                let page = encode_header(0);
                proof {
                    lemma_fresh_image(N as nat);
                    lemma_header_roundtrip(0);
                }
                file.write(0, page.as_slice());
                capacity
            },
            OpenPlan::Attach { capacity } => {
                match validate_header(file.bytes.as_slice(), capacity) {
                    Ok(_) => {},
                    Err(error) => {
                        return Err(Rejected { error, file });
                    },
                }
                capacity
            },
        };
        proof {
            lemma2_to64();
            assert(capacity * pow2(0) == capacity) by (nonlinear_arith)
                requires
                    pow2(0) == 1,
            ;
        }
        Ok(
            FileMappedVector {
                file,
                capacity,
                ceiling,
                opened: Ghost(capacity as nat),
                doublings: Ghost(0),
            },
        )
    }

    /// Opens `file` under a mapping of the default size.
    pub fn new(file: BackingFile) -> (r: Result<Self, Rejected>)
        requires
            file.writable ==> N > 0 && (file.bytes@.len() == 0 || well_sized(
                file.bytes@.len(),
                N as nat,
            )),
        ensures
            match r {
                Ok(v) => {
                    &&& open_error(file, N as nat, MAPPING_CEILING) is None
                    &&& v.wf()
                    &&& v.image() == opened_image(file.bytes@, N as nat)
                    &&& v.backing().limit == file.limit
                    &&& v.ceiling() == MAPPING_CEILING
                    &&& v.opened_capacity() == v.spec_capacity()
                    &&& v.doublings() == 0
                    &&& file.bytes@.len() == 0 ==> v@ == Seq::<Seq<u8>>::empty()
                        && v.spec_capacity() == INITIAL_SLOTS
                },
                Err(rejected) => {
                    &&& open_error(file, N as nat, MAPPING_CEILING) == Some(rejected.error)
                    &&& rejected.file == file
                },
            },
    {
        Self::with_ceiling(file, MAPPING_CEILING)
    }

    /// The number of records appended so far, as the header counts them.
    pub fn len(&self) -> (n: usize)
        requires
            self.wf(),
        ensures
            n == self@.len(),
            n == self.spec_len(),
            n <= self.spec_capacity(),
    {
        read_len(self.file.bytes.as_slice()) as usize
    }

    /// Appends `value`.
    ///
    /// Where every slot is taken, the file is first extended in place to
    /// twice its capacity; the new slots read as zero. The record is written
    /// into the first free slot and the count in the header goes up by one.
    /// No other slot changes. Where the growth fails, nothing has changed.
    pub fn push(&mut self, value: [u8; N]) -> (r: Result<(), AllocationError>)
        requires
            old(self).wf(),
        ensures
            final(self).wf(),
            final(self).ceiling() == old(self).ceiling(),
            final(self).backing().limit == old(self).backing().limit,
            final(self).opened_capacity() == old(self).opened_capacity(),
            match r {
                Ok(()) => {
                    &&& old(self).push_error() is None
                    &&& final(self).image() == pushed(old(self).image(), value@, N as nat)
                    &&& final(self)@ == old(self)@.push(value@)
                    &&& final(self).spec_len() == old(self).spec_len() + 1
                    &&& final(self).slot(old(self).spec_len()) == value@
                    &&& forall|i: nat|
                        i < old(self).spec_capacity() && i != old(self).spec_len()
                            ==> #[trigger] final(self).slot(i) == old(self).slot(i)
                    &&& forall|i: nat|
                        old(self).spec_capacity() <= i < final(self).spec_capacity() && i != old(
                            self,
                        ).spec_len() ==> #[trigger] final(self).slot(i) == zeros(N as nat)
                    &&& if old(self).spec_len() < old(self).spec_capacity() {
                        &&& final(self).spec_capacity() == old(self).spec_capacity()
                        &&& final(self).doublings() == old(self).doublings()
                    } else {
                        &&& final(self).spec_capacity() == 2 * old(self).spec_capacity()
                        &&& final(self).doublings() == old(self).doublings() + 1
                    }
                },
                Err(e) => {
                    &&& old(self).push_error() == Some(e)
                    &&& *final(self) == *old(self)
                },
            },
    {
        let len = self.len();
        let ghost before = self.image();
        let ghost cap = self.capacity as nat;
        proof {
            lemma_capacity_of_file_len(before.len(), N as nat);
            lemma_growth_arith(cap, N as nat);
        }
        let plan = match plan_push(len, self.capacity, N, self.ceiling) {
            Ok(plan) => plan,
            Err(e) => {
                return Err(e);
            },
        };
        proof {
            lemma_pushed(before, value@, N as nat);
            lemma_auto_spec_u64_to_from_le_bytes();
            if len == cap {
                assert(2 * cap <= (2 * cap) * N) by (nonlinear_arith)
                    requires
                        N >= 1,
                ;
            }
        }
        match plan.growth {
            Some(growth) => {
                match self.file.allocate(growth.offset, growth.len) {
                    Ok(()) => {},
                    Err(e) => {
                        return Err(e);
                    },
                }
                self.capacity = growth.new_capacity;
                proof {
                    lemma_pow2_unfold(self.doublings@ + 1);
                    assert(2 * (self.opened@ * pow2(self.doublings@)) == self.opened@ * (2 * pow2(
                        self.doublings@,
                    ))) by (nonlinear_arith);
                    self.doublings@ = self.doublings@ + 1;
                }
            },
            None => {},
        }
        proof {
            lemma_slot_in_file(len as nat, self.capacity as nat, N as nat);
        }
        self.file.write(plan.offset, value.as_slice());
        let count = u64_to_le_bytes(plan.new_len);
        self.file.write(LEN_OFFSET, count.as_slice());
        Ok(())
    }

    /// The record in slot `index`.
    ///
    /// Below the length this is the record that was appended at that
    /// position; from there up to the capacity it is whatever the file holds
    /// in that slot.
    pub fn get(&self, index: usize) -> (value: [u8; N])
        requires
            self.wf(),
            index < self.spec_capacity(),
        ensures
            value@ == self.slot(index as nat),
            index < self@.len() ==> value@ == self@[index as int],
    {
        proof {
            lemma_capacity_of_file_len(self.image().len(), N as nat);
        }
        self.file.read::<N>(slot_position(index, self.capacity, N))
    }

    /// Detaches the vector from its file and hands the file back, holding
    /// everything that was appended.
    pub fn dispose(self) -> (file: BackingFile)
        ensures
            file == self.backing(),
    {
        self.file
    }

    /// The number of records that the file has room for.
    pub fn capacity(&self) -> (c: usize)
        requires
            self.wf(),
        ensures
            c == self.spec_capacity(),
            c >= self@.len(),
    {
        self.capacity
    }
}

impl<const N: usize> View for FileMappedVector<N> {
    type V = Seq<Seq<u8>>;

    /// The records appended so far, in the order of their appending.
    open spec fn view(&self) -> Seq<Seq<u8>> {
        records(self.image(), N as nat)
    }
}

} // verus!
