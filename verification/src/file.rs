use vstd::prelude::*;
use crate::error::AllocationError;

verus! {

/// A file as the vector sees it: its bytes, whether the handle allows
/// writing, and how many bytes the store behind it can hold at most.
#[derive(Debug, PartialEq, Eq)]
pub struct BackingFile {
    pub bytes: Vec<u8>,
    pub writable: bool,
    pub limit: usize,
}

/// The bytes of a file after it was extended to `len` bytes: what it held,
/// then zeros. A file that is already that long is left as it is.
pub open spec fn extended(bytes: Seq<u8>, len: nat) -> Seq<u8> {
    if len <= bytes.len() {
        bytes
    } else {
        bytes + Seq::new((len - bytes.len()) as nat, |i: int| 0u8)
    }
}

/// The bytes of a file after `data` was written at `offset`.
pub open spec fn overwritten(bytes: Seq<u8>, offset: nat, data: Seq<u8>) -> Seq<u8>
    recommends
        offset + data.len() <= bytes.len(),
{
    bytes.subrange(0, offset as int) + data + bytes.subrange(
        (offset + data.len()) as int,
        bytes.len() as int,
    )
}

/// Why the store refuses to allocate `len` bytes at `offset`, if it does.
pub open spec fn refusal(limit: nat, offset: nat, len: nat) -> Option<AllocationError> {
    if len == 0 {
        Some(AllocationError::EmptyRange)
    } else if offset + len > limit {
        Some(AllocationError::StoreFull)
    } else {
        None
    }
}

impl BackingFile {
    /// A new, empty file, open for writing, on a store that holds up to
    /// `limit` bytes.
    pub fn create(limit: usize) -> (file: Self)
        ensures
            file.bytes@ == Seq::<u8>::empty(),
            file.writable,
            file.limit == limit,
    {
        BackingFile { bytes: Vec::new(), writable: true, limit }
    }

    /// Allocates storage for the `len` bytes from `offset` on. Where the
    /// range ends beyond the end of the file, the file grows up to there and
    /// the new bytes read as zero; what the file held stays where it was.
    /// On refusal the file is unchanged.
    pub fn allocate(&mut self, offset: usize, len: usize) -> (r: Result<(), AllocationError>)
        requires
            old(self).writable,
        ensures
            match r {
                Ok(()) => {
                    &&& refusal(old(self).limit as nat, offset as nat, len as nat) is None
                    &&& final(self).bytes@ == extended(old(self).bytes@, (offset + len) as nat)
                    &&& final(self).writable == old(self).writable
                    &&& final(self).limit == old(self).limit
                },
                Err(e) => {
                    &&& refusal(old(self).limit as nat, offset as nat, len as nat) == Some(e)
                    &&& *final(self) == *old(self)
                },
            },
    {
        if len == 0 {
            return Err(AllocationError::EmptyRange);
        }
        let end: usize = match offset.checked_add(len) {
            Some(end) => end,
            None => {
                return Err(AllocationError::StoreFull);
            },
        };
        if end > self.limit {
            return Err(AllocationError::StoreFull);
        }
        if end > self.bytes.len() {
            let ghost before = self.bytes@;
            self.bytes.resize(end, 0u8);
            assert(self.bytes@ =~= extended(before, end as nat));
        }
        Ok(())
    }

    /// Writes `data` over the bytes from `offset` on.
    pub fn write(&mut self, offset: usize, data: &[u8])
        requires
            old(self).writable,
            offset + data@.len() <= old(self).bytes@.len(),
        ensures
            final(self).bytes@ == overwritten(old(self).bytes@, offset as nat, data@),
            final(self).writable == old(self).writable,
            final(self).limit == old(self).limit,
    {
        let n: usize = data.len();
        let total: usize = self.bytes.len();
        let mut j: usize = 0;
        while j < n
            invariant
                j <= n,
                n == data@.len(),
                offset + n <= total,
                total == self.bytes@.len(),
                self.bytes@.len() == old(self).bytes@.len(),
                self.writable == old(self).writable,
                self.limit == old(self).limit,
                forall|k: int| 0 <= k < offset ==> self.bytes@[k] == old(self).bytes@[k],
                forall|k: int| 0 <= k < j ==> self.bytes@[offset + k] == data@[k],
                forall|k: int|
                    offset + j <= k < self.bytes@.len() ==> self.bytes@[k] == old(self).bytes@[k],
            decreases n - j,
        {
            self.bytes.set(offset + j, data[j]);
            j += 1;
        }
        assert(self.bytes@ =~= overwritten(old(self).bytes@, offset as nat, data@));
    }

    /// Reads the `N` bytes from `offset` on.
    pub fn read<const N: usize>(&self, offset: usize) -> (out: [u8; N])
        requires
            offset + N <= self.bytes@.len(),
        ensures
            out@ == self.bytes@.subrange(offset as int, offset + N),
    {
        let mut out: [u8; N] = [0u8; N];
        let total: usize = self.bytes.len();
        let mut j: usize = 0;
        while j < N
            invariant
                j <= N,
                offset + N <= total,
                total == self.bytes@.len(),
                forall|k: int| 0 <= k < j ==> out@[k] == self.bytes@[offset + k],
            decreases N - j,
        {
            out[j] = self.bytes[offset + j];
            j += 1;
        }
        assert(out@ =~= self.bytes@.subrange(offset as int, offset + N));
        out
    }
}

} // verus!
