//! Chunk addressing: a chunk's grid coordinates become its storage key, the
//! decimal coordinates joined by dots (`[2, 0, 5]` is `2.0.5`).
use vstd::prelude::*;
use crate::text::{join_decimal, lemma_join_injective, push_joined};

verus! {

/// Byte that separates the coordinates of a chunk key.
pub const KEY_SEPARATOR: u8 = 46;

pub open spec fn spec_chunk_key(coords: Seq<u64>) -> Seq<u8> {
    join_decimal(coords, 46)
}

/// The storage key of the chunk at `coords`. Neither the rank nor the bounds
/// of the coordinates are checked here: see `ArrayMetadata::checked_chunk_key`.
pub fn chunk_key(coords: &[u64]) -> (r: Vec<u8>)
    ensures
        r@ == spec_chunk_key(coords@),
{
    let mut out: Vec<u8> = Vec::new();
    push_joined(&mut out, coords, KEY_SEPARATOR);
    assert(out@ =~= spec_chunk_key(coords@));
    out
}

/// Chunk keys are unique: two coordinate tuples of one rank with the same
/// key are the same tuple.
pub proof fn lemma_chunk_key_injective(a: Seq<u64>, b: Seq<u64>)
    requires
        a.len() == b.len(),
        spec_chunk_key(a) == spec_chunk_key(b),
    ensures
        a == b,
{
    lemma_join_injective(a, b, 46);
}

} // verus!
