use vstd::prelude::*;
use vstd::bytes::{
    lemma_auto_spec_u64_to_from_le_bytes, spec_u64_from_le_bytes, spec_u64_to_le_bytes,
    u64_from_le_bytes, u64_to_le_bytes,
};
use vstd::slice::slice_subrange;
use crate::error::OpenError;
use crate::layout::HEADER_SIZE;

verus! {

/// Offset of the record count in the header page.
pub const LEN_OFFSET: usize = 8;

/// Offset of the first reserved byte of the header page.
pub const RESERVED_OFFSET: usize = 16;

/// The signature at the start of every file: the ASCII letters `FMAPVEC` and
/// a zero byte.
pub open spec fn magic() -> Seq<u8> {
    seq![0x46u8, 0x4du8, 0x41u8, 0x50u8, 0x56u8, 0x45u8, 0x43u8, 0x00u8]
}

/// The bytes start with the signature.
pub open spec fn has_magic(bytes: Seq<u8>) -> bool {
    bytes.len() >= LEN_OFFSET && bytes.subrange(0, LEN_OFFSET as int) == magic()
}

/// The record count that the header bytes hold, little-endian.
pub open spec fn stored_len(bytes: Seq<u8>) -> u64
    recommends
        bytes.len() >= RESERVED_OFFSET,
{
    spec_u64_from_le_bytes(bytes.subrange(LEN_OFFSET as int, RESERVED_OFFSET as int))
}

/// The header page of a file that holds `len` records: the signature, the
/// count, and zeros up to the end of the page.
pub open spec fn header_page(len: u64) -> Seq<u8> {
    magic() + spec_u64_to_le_bytes(len) + Seq::new(
        (HEADER_SIZE - RESERVED_OFFSET) as nat,
        |i: int| 0u8,
    )
}

/// Decoding an encoded header gives the count back.
pub proof fn lemma_header_roundtrip(len: u64)
    ensures
        header_page(len).len() == HEADER_SIZE,
        has_magic(header_page(len)),
        stored_len(header_page(len)) == len,
{
    lemma_auto_spec_u64_to_from_le_bytes();
    let page = header_page(len);
    assert(page.subrange(0, LEN_OFFSET as int) =~= magic());
    assert(page.subrange(LEN_OFFSET as int, RESERVED_OFFSET as int) =~= spec_u64_to_le_bytes(len));
}

/// The signature as an array.
pub fn magic_bytes() -> (m: [u8; 8])
    ensures
        m@ == magic(),
{
    let m: [u8; 8] = [0x46u8, 0x4du8, 0x41u8, 0x50u8, 0x56u8, 0x45u8, 0x43u8, 0x00u8];
    assert(m@ =~= magic());
    m
}

/// Builds the header page of a file that holds `len` records.
pub fn encode_header(len: u64) -> (page: Vec<u8>)
    ensures
        page@ == header_page(len),
{
    let m = magic_bytes();
    let count = u64_to_le_bytes(len);
    let mut page: Vec<u8> = Vec::with_capacity(HEADER_SIZE);
    let mut i: usize = 0;
    while i < LEN_OFFSET
        invariant
            i <= LEN_OFFSET,
            m@ == magic(),
            page@ == magic().subrange(0, i as int),
        decreases LEN_OFFSET - i,
    {
        page.push(m[i]);
        i += 1;
        assert(page@ =~= magic().subrange(0, i as int));
    }
    assert(page@ =~= magic());
    while i < RESERVED_OFFSET
        invariant
            LEN_OFFSET <= i <= RESERVED_OFFSET,
            count@ == spec_u64_to_le_bytes(len),
            count@.len() == 8,
            page@ == magic() + count@.subrange(0, i - LEN_OFFSET),
        decreases RESERVED_OFFSET - i,
    {
        page.push(count[i - LEN_OFFSET]);
        i += 1;
        assert(page@ =~= magic() + count@.subrange(0, i - LEN_OFFSET));
    }
    assert(page@ =~= magic() + count@);
    while i < HEADER_SIZE
        invariant
            RESERVED_OFFSET <= i <= HEADER_SIZE,
            count@ == spec_u64_to_le_bytes(len),
            count@.len() == 8,
            page@ == magic() + count@ + Seq::new((i - RESERVED_OFFSET) as nat, |k: int| 0u8),
        decreases HEADER_SIZE - i,
    {
        page.push(0u8);
        i += 1;
        assert(page@ =~= magic() + count@ + Seq::new(
            (i - RESERVED_OFFSET) as nat,
            |k: int| 0u8,
        ));
    }
    page
}

/// Whether the bytes start with the signature.
pub fn carries_magic(bytes: &[u8]) -> (r: bool)
    ensures
        r == has_magic(bytes@),
{
    if bytes.len() < LEN_OFFSET {
        return false;
    }
    let m = magic_bytes();
    let mut i: usize = 0;
    while i < LEN_OFFSET
        invariant
            i <= LEN_OFFSET,
            bytes@.len() >= LEN_OFFSET,
            m@ == magic(),
            forall|k: int| 0 <= k < i ==> bytes@[k] == magic()[k],
        decreases LEN_OFFSET - i,
    {
        if bytes[i] != m[i] {
            assert(bytes@.subrange(0, LEN_OFFSET as int)[i as int] != magic()[i as int]);
            return false;
        }
        i += 1;
    }
    assert(bytes@.subrange(0, LEN_OFFSET as int) =~= magic());
    true
}

/// Reads the record count out of header bytes.
pub fn read_len(bytes: &[u8]) -> (len: u64)
    requires
        bytes@.len() >= RESERVED_OFFSET,
    ensures
        len == stored_len(bytes@),
{
    u64_from_le_bytes(slice_subrange(bytes, LEN_OFFSET, RESERVED_OFFSET))
}

/// Validates header bytes and gives the record count that they hold.
///
/// The bytes are accepted where they start with the signature and go on at
/// least to the end of the count.
pub fn decode_header(bytes: &[u8]) -> (r: Result<u64, OpenError>)
    ensures
        r == if has_magic(bytes@) && bytes@.len() >= RESERVED_OFFSET {
            Ok::<u64, OpenError>(stored_len(bytes@))
        } else {
            Err::<u64, OpenError>(OpenError::CorruptHeader)
        },
{
    if carries_magic(bytes) && bytes.len() >= RESERVED_OFFSET {
        Ok(read_len(bytes))
    } else {
        Err(OpenError::CorruptHeader)
    }
}

} // verus!
