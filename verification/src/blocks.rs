//! Data blocks: the reference-counted byte strings of the `bytes` crate.

use bytes::Bytes;
use vstd::prelude::*;

verus! {

/// `bytes::Bytes`, a cheaply cloneable byte string.
#[verifier::external_type_specification]
#[verifier::external_body]
pub struct ExBytes(bytes::Bytes);

/// The bytes that a `bytes::Bytes` holds.
pub uninterp spec fn content(block: Bytes) -> Seq<u8>;

/// The bytes that each of a sequence of blocks holds.
pub open spec fn contents(blocks: Seq<Bytes>) -> Seq<Seq<u8>> {
    blocks.map_values(|b: Bytes| content(b))
}

/// `bytes::Bytes::copy_from_slice`: the new block holds a copy of the slice.
pub assume_specification[ bytes::Bytes::copy_from_slice ](data: &[u8]) -> (r: Bytes)
    ensures
        content(r) == data@,
;

/// `bytes::Bytes::is_empty`: whether the block holds no byte.
pub assume_specification[ bytes::Bytes::is_empty ](block: &Bytes) -> (r: bool)
    ensures
        r == (content(*block).len() == 0),
;

/// `Clone` of `bytes::Bytes`: the new handle holds the same bytes.
pub assume_specification[ <bytes::Bytes as Clone>::clone ](block: &Bytes) -> (r: Bytes)
    ensures
        content(r) == content(*block),
;

/// `From<Vec<u8>>` of `bytes::Bytes`: the block takes over the bytes of the vector.
#[verifier::external_body]
pub(crate) fn block_from_vec(data: Vec<u8>) -> (r: Bytes)
    ensures
        content(r) == data@,
{
    Bytes::from(data)
}

/// A copy of the list of blocks; every block of it holds the same bytes.
pub fn clone_blocks(blocks: &Vec<Bytes>) -> (r: Vec<Bytes>)
    ensures
        contents(r@) == contents(blocks@),
{
    let mut r: Vec<Bytes> = Vec::new();
    let mut i: usize = 0;
    while i < blocks.len()
        invariant
            i <= blocks@.len(),
            r@.len() == i,
            forall|j: int| 0 <= j < i ==> content(#[trigger] r@[j]) == content(blocks@[j]),
        decreases blocks@.len() - i,
    {
        r.push(blocks[i].clone());
        i += 1;
    }
    assert(contents(r@) =~= contents(blocks@));
    r
}

/// The contents of blocks are those of each, in order.
pub proof fn law_contents_are_those_of_each(blocks: Seq<Bytes>)
    ensures
        contents(blocks).len() == blocks.len(),
        forall|i: int| 0 <= i < blocks.len() ==> #[trigger] contents(blocks)[i] == content(blocks[i]),
{
}

/// A copied list has the same blocks in the same order.
pub proof fn law_copies_hold_the_same(blocks: Vec<Bytes>, r: Vec<Bytes>)
    requires
        call_ensures(clone_blocks, (&blocks,), r),
    ensures
        r@.len() == blocks@.len(),
        forall|i: int| 0 <= i < r@.len() ==> content(#[trigger] r@[i]) == content(blocks@[i]),
{
    assert(contents(r@).len() == contents(blocks@).len());
    assert forall|i: int| 0 <= i < r@.len() implies content(#[trigger] r@[i]) == content(
        blocks@[i],
    ) by {
        assert(contents(r@)[i] == contents(blocks@)[i]);
    }
}

} // verus!
