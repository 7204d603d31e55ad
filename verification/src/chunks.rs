//! The chunk partitioner: the payload is split into full chunks of the
//! chosen size plus one shorter remainder chunk, each handed to the
//! transport as a single bounded write. Chunking is a transmission
//! detail only: the chunks always concatenate back to the payload.

use vstd::prelude::*;

verus! {

/// How many chunks a payload of `file_size` bytes needs at write
/// granularity `chunk_size`: the full chunks plus a remainder chunk
/// when the sizes do not divide evenly.
pub open spec fn spec_num_chunks(file_size: int, chunk_size: int) -> int
    recommends
        chunk_size >= 1,
{
    if file_size % chunk_size == 0 {
        file_size / chunk_size
    } else {
        file_size / chunk_size + 1
    }
}

/// The chunks of a payload, in transmission order: full chunks of
/// `chunk_size` bytes, then whatever remains as one final chunk.
pub open spec fn spec_chunks(file: Seq<u8>, chunk_size: int) -> Seq<Seq<u8>>
    recommends
        chunk_size >= 1,
    decreases file.len(),
{
    if chunk_size < 1 {
        Seq::empty()
    } else if file.len() == 0 {
        Seq::empty()
    } else if file.len() <= chunk_size {
        seq![file]
    } else {
        seq![file.subrange(0, chunk_size)] + spec_chunks(
            file.subrange(chunk_size, file.len() as int),
            chunk_size,
        )
    }
}

/// Concatenating the chunks gives the payload back, whatever the
/// chunk size: chunking never alters the frame's payload.
pub proof fn lemma_chunks_flatten(file: Seq<u8>, chunk_size: int)
    requires
        chunk_size >= 1,
    ensures
        spec_chunks(file, chunk_size).flatten() == file,
    decreases file.len(),
{
    if file.len() == 0 {
        assert(spec_chunks(file, chunk_size).flatten() =~= file);
    } else if file.len() <= chunk_size {
        seq![file].lemma_flatten_one_element();
    } else {
        let head = file.subrange(0, chunk_size);
        let tail = file.subrange(chunk_size, file.len() as int);
        lemma_chunks_flatten(tail, chunk_size);
        vstd::seq_lib::lemma_flatten_concat(seq![head], spec_chunks(tail, chunk_size));
        seq![head].lemma_flatten_one_element();
        assert(head + tail =~= file);
    }
}

/// Transfers of the same payload with different chunk sizes put the
/// same bytes on the wire: the concatenated chunks coincide.
pub proof fn lemma_chunk_size_independence(file: Seq<u8>, chunk_size_a: int, chunk_size_b: int)
    requires
        chunk_size_a >= 1,
        chunk_size_b >= 1,
    ensures
        spec_chunks(file, chunk_size_a).flatten() == spec_chunks(file, chunk_size_b).flatten(),
{
    lemma_chunks_flatten(file, chunk_size_a);
    lemma_chunks_flatten(file, chunk_size_b);
}

/// The shape of the partition: `file_size / chunk_size` full chunks,
/// and, when the division leaves a remainder, one final chunk of
/// exactly that many bytes.
pub proof fn lemma_chunks_shape(file: Seq<u8>, chunk_size: int)
    requires
        chunk_size >= 1,
    ensures
        spec_chunks(file, chunk_size).len() == spec_num_chunks(file.len() as int, chunk_size),
        forall|i: int|
            0 <= i < spec_chunks(file, chunk_size).len() - 1 ==> #[trigger] spec_chunks(
                file,
                chunk_size,
            )[i].len() == chunk_size,
        spec_chunks(file, chunk_size).len() > 0 ==> spec_chunks(file, chunk_size).last().len() == (
        if file.len() as int % chunk_size == 0 {
            chunk_size as int
        } else {
            file.len() as int % chunk_size
        }),
    decreases file.len(),
{
    let chunks = spec_chunks(file, chunk_size);
    let len = file.len() as int;
    if file.len() == 0 {
        assert(len % chunk_size == 0 && len / chunk_size == 0) by (nonlinear_arith)
            requires
                chunk_size >= 1 && len == 0,
        ;
    } else if file.len() <= chunk_size {
        assert(chunks.len() == 1);
        assert(len % chunk_size == 0 ==> len / chunk_size == 1) by (nonlinear_arith)
            requires
                chunk_size >= 1 && 0 < len <= chunk_size,
        ;
        assert(len % chunk_size != 0 ==> len / chunk_size == 0 && len % chunk_size == len)
            by (nonlinear_arith)
            requires
                chunk_size >= 1 && 0 < len <= chunk_size,
        ;
        assert(len % chunk_size == 0 ==> len == chunk_size) by (nonlinear_arith)
            requires
                chunk_size >= 1 && 0 < len <= chunk_size,
        ;
    } else {
        let tail = file.subrange(chunk_size, len);
        lemma_chunks_shape(tail, chunk_size);
        let tail_len = tail.len() as int;
        assert(tail_len == len - chunk_size);
        assert((len - chunk_size) % chunk_size == len % chunk_size && (len - chunk_size)
            / chunk_size == len / chunk_size - 1) by (nonlinear_arith)
            requires
                chunk_size >= 1 && len > chunk_size,
        ;
        assert(chunks == seq![file.subrange(0, chunk_size)] + spec_chunks(tail, chunk_size));
        assert(tail_len > 0);
        assert(tail_len % chunk_size == 0 ==> tail_len / chunk_size >= 1) by (nonlinear_arith)
            requires
                chunk_size >= 1 && tail_len >= 1,
        ;
        assert(tail_len % chunk_size != 0 ==> tail_len / chunk_size >= 0) by (nonlinear_arith)
            requires
                chunk_size >= 1 && tail_len >= 1,
        ;
        assert(spec_chunks(tail, chunk_size).len() > 0);
        assert(chunks.last() == spec_chunks(tail, chunk_size).last());
        assert(forall|i: int|
            1 <= i < chunks.len() - 1 ==> #[trigger] chunks[i] == spec_chunks(tail, chunk_size)[i
                - 1]);
    }
}

/// Split a payload into its transmission chunks.
pub fn split_chunks(file: &Vec<u8>, chunk_size: usize) -> (r: Vec<Vec<u8>>)
    requires
        chunk_size >= 1,
    ensures
        r@.map_values(|c: Vec<u8>| c@) == spec_chunks(file@, chunk_size as int),
{
    let len = file.len();
    let mut chunks: Vec<Vec<u8>> = Vec::new();
    let mut offset: usize = 0;
    proof {
        assert(file@.subrange(0, len as int) =~= file@);
        assert(chunks@.map_values(|c: Vec<u8>| c@) + spec_chunks(file@, chunk_size as int)
            =~= spec_chunks(file@, chunk_size as int));
    }
    while offset < len
        invariant
            chunk_size >= 1,
            len == file@.len(),
            offset <= len,
            chunks@.map_values(|c: Vec<u8>| c@) + spec_chunks(
                file@.subrange(offset as int, len as int),
                chunk_size as int,
            ) == spec_chunks(file@, chunk_size as int),
        decreases len - offset,
    {
        let take = if len - offset < chunk_size {
            len - offset
        } else {
            chunk_size
        };
        let chunk = crate::codec::copy_range(file, offset, offset + take);
        proof {
            let rest = file@.subrange(offset as int, len as int);
            let next_rest = file@.subrange(offset as int + take as int, len as int);
            if len - offset <= chunk_size {
                assert(chunk@ =~= rest);
                assert(spec_chunks(rest, chunk_size as int) =~= seq![rest]);
                assert(next_rest.len() == 0);
                assert(spec_chunks(next_rest, chunk_size as int) =~= Seq::<Seq<u8>>::empty());
            } else {
                assert(chunk@ =~= rest.subrange(0, chunk_size as int));
                assert(next_rest =~= rest.subrange(chunk_size as int, rest.len() as int));
            }
            assert(spec_chunks(rest, chunk_size as int) =~= seq![chunk@] + spec_chunks(
                next_rest,
                chunk_size as int,
            ));
            assert((chunks@.push(chunk)).map_values(|c: Vec<u8>| c@) =~= chunks@.map_values(
                |c: Vec<u8>| c@,
            ).push(chunk@));
            assert(chunks@.map_values(|c: Vec<u8>| c@).push(chunk@) + spec_chunks(
                next_rest,
                chunk_size as int,
            ) =~= chunks@.map_values(|c: Vec<u8>| c@) + spec_chunks(rest, chunk_size as int));
        }
        chunks.push(chunk);
        offset += take;
    }
    proof {
        assert(file@.subrange(offset as int, len as int).len() == 0);
        assert(spec_chunks(file@.subrange(offset as int, len as int), chunk_size as int)
            =~= Seq::<Seq<u8>>::empty());
        assert(chunks@.map_values(|c: Vec<u8>| c@) + Seq::<Seq<u8>>::empty() =~= chunks@.map_values(
            |c: Vec<u8>| c@,
        ));
    }
    chunks
}

} // verus!
