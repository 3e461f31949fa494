//! Chunking of file content for streaming.
//!
//! A download is streamed to the client in fixed-size chunks of at most
//! 1024 bytes, written one after the other with no framing around them.
//! What the client receives is the concatenation of the chunks, so the
//! contract here is the round trip: the chunks of a buffer concatenate back
//! to exactly that buffer, whatever its size and wherever the chunk
//! boundaries fall.

use vstd::prelude::*;
use vstd::slice::{slice_subrange, slice_to_vec};

verus! {

/// The most bytes one streamed chunk carries.
pub const CHUNK_SIZE: usize = 1024;

/// The bytes a sequence of chunks delivers: their concatenation in order.
pub open spec fn spec_concat(chunks: Seq<Seq<u8>>) -> Seq<u8> {
    chunks.flatten()
}

/// Split `data` into the chunks its download streams: each at most
/// `CHUNK_SIZE` bytes, none empty, and concatenating back to exactly
/// `data` — the client receives every byte, unaltered, regardless of
/// content size or where the chunk boundaries fall.
pub fn chunk_bytes(data: &[u8]) -> (chunks: Vec<Vec<u8>>)
    ensures
        spec_concat(chunks@.map_values(|c: Vec<u8>| c@)) == data@,
        forall|i: int| 0 <= i < chunks@.len() ==> 0 < #[trigger] chunks@[i]@.len() <= CHUNK_SIZE,
        forall|i: int| 0 <= i < chunks@.len() - 1 ==> #[trigger] chunks@[i]@.len() == CHUNK_SIZE,
        data@.len() == 0 ==> chunks@.len() == 0,
{
    let n = data.len();
    let mut chunks: Vec<Vec<u8>> = Vec::new();
    let mut pos: usize = 0;
    proof {
        assert(chunks@.map_values(|c: Vec<u8>| c@) =~= Seq::<Seq<u8>>::empty());
        assert(Seq::<Seq<u8>>::empty().flatten() =~= data@.take(0));
    }
    while pos < n
        invariant
            pos <= n,
            n == data@.len(),
            spec_concat(chunks@.map_values(|c: Vec<u8>| c@)) == data@.take(pos as int),
            forall|i: int|
                0 <= i < chunks@.len() ==> 0 < #[trigger] chunks@[i]@.len() <= CHUNK_SIZE,
            forall|i: int|
                0 <= i < chunks@.len() ==> #[trigger] chunks@[i]@.len() == CHUNK_SIZE || (i
                    == chunks@.len() - 1 && pos == n),
            pos == 0 ==> chunks@.len() == 0,
        decreases n - pos,
    {
        let end = if n - pos > CHUNK_SIZE {
            pos + CHUNK_SIZE
        } else {
            n
        };
        let chunk = slice_to_vec(slice_subrange(data, pos, end));
        let ghost before = chunks@.map_values(|c: Vec<u8>| c@);
        chunks.push(chunk);
        proof {
            let after = chunks@.map_values(|c: Vec<u8>| c@);
            assert(after =~= before.push(chunk@));
            before.lemma_flatten_push(chunk@);
            assert(data@.take(pos as int) + data@.subrange(pos as int, end as int) =~= data@.take(
                end as int,
            ));
        }
        pos = end;
    }
    proof {
        assert(data@.take(n as int) =~= data@);
    }
    chunks
}

} // verus!
