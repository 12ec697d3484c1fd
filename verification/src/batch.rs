//! The batcher: cuts one worker's partition into batches of a fixed size,
//! the last of which holds what is left over.

use vstd::prelude::*;

verus! {

/// How many batches a partition of `len` records gives: `len / chunk_size`,
/// rounded up.
pub open spec fn batch_count(len: nat, chunk_size: nat) -> nat
    recommends
        chunk_size > 0,
{
    if len % chunk_size == 0 {
        len / chunk_size
    } else {
        len / chunk_size + 1
    }
}

/// Where the first `count` batches end: `count * chunk_size`, but never
/// beyond the end of the partition.
pub open spec fn batch_edge(len: nat, chunk_size: nat, count: nat) -> nat {
    if count * chunk_size <= len {
        count * chunk_size
    } else {
        len
    }
}

/// Batch number `batch` (counted from 1) of a partition.
pub open spec fn batch_of<T>(records: Seq<T>, chunk_size: nat, batch: nat) -> Seq<T>
    recommends
        chunk_size > 0,
        1 <= batch <= batch_count(records.len(), chunk_size),
{
    records.subrange(
        batch_edge(records.len(), chunk_size, (batch - 1) as nat) as int,
        batch_edge(records.len(), chunk_size, batch) as int,
    )
}

/// Batches `1..=count`, one after the other.
pub open spec fn batches_joined<T>(records: Seq<T>, chunk_size: nat, count: nat) -> Seq<T>
    decreases count,
{
    if count == 0 {
        Seq::empty()
    } else {
        batches_joined(records, chunk_size, (count - 1) as nat) + batch_of(
            records,
            chunk_size,
            count,
        )
    }
}

/// Edges do not move backwards, lie within the partition, the first is its
/// start and the one after the last batch is its end.
pub proof fn lemma_batch_edges(len: nat, chunk_size: nat, i: nat, j: nat)
    requires
        chunk_size > 0,
        i <= j,
    ensures
        batch_edge(len, chunk_size, i) <= batch_edge(len, chunk_size, j) <= len,
        batch_edge(len, chunk_size, 0) == 0,
        batch_edge(len, chunk_size, batch_count(len, chunk_size)) == len,
{
    assert(i * chunk_size <= j * chunk_size) by (nonlinear_arith)
        requires
            i <= j,
    ;
    assert(0 * chunk_size == 0) by (nonlinear_arith);
    lemma_full_batches(len, chunk_size);
}

/// A partition holds `len / chunk_size` full batches and `len % chunk_size`
/// records more.
pub proof fn lemma_full_batches(len: nat, chunk_size: nat)
    requires
        chunk_size > 0,
    ensures
        len == (len / chunk_size) * chunk_size + len % chunk_size,
        len % chunk_size < chunk_size,
        (len / chunk_size + 1) * chunk_size == (len / chunk_size) * chunk_size + chunk_size,
        batch_edge(len, chunk_size, batch_count(len, chunk_size)) == len,
{
    vstd::arithmetic::div_mod::lemma_fundamental_div_mod(len as int, chunk_size as int);
    let q = len / chunk_size;
    assert(q * chunk_size == chunk_size * q) by (nonlinear_arith);
    assert((q + 1) * chunk_size == q * chunk_size + chunk_size) by (nonlinear_arith);
}

/// Every batch before the last full one ends at a multiple of the chunk
/// size.
pub proof fn lemma_edge_of_full_batch(len: nat, chunk_size: nat, count: nat)
    requires
        chunk_size > 0,
        count <= len / chunk_size,
    ensures
        batch_edge(len, chunk_size, count) == count * chunk_size,
{
    lemma_full_batches(len, chunk_size);
    let q = len / chunk_size;
    assert(count * chunk_size <= q * chunk_size) by (nonlinear_arith)
        requires
            count <= q,
    ;
}

/// How many records batch number `batch` (counted from 1) holds:
/// `chunk_size`, but for the last batch where the length is no multiple of
/// the chunk size, which holds the remainder, `len % chunk_size`.
pub open spec fn batch_len(len: nat, chunk_size: nat, batch: nat) -> nat
    recommends
        chunk_size > 0,
        1 <= batch <= batch_count(len, chunk_size),
{
    if batch == batch_count(len, chunk_size) && len % chunk_size != 0 {
        len % chunk_size
    } else {
        chunk_size
    }
}

/// A batch ends `batch_len` records after the one before it, and is never
/// empty nor longer than the chunk size.
pub proof fn lemma_batch_len(len: nat, chunk_size: nat, batch: nat)
    requires
        chunk_size > 0,
        1 <= batch <= batch_count(len, chunk_size),
    ensures
        batch_edge(len, chunk_size, batch) == batch_edge(len, chunk_size, (batch - 1) as nat)
            + batch_len(len, chunk_size, batch),
        batch_edge(len, chunk_size, (batch - 1) as nat) == (batch - 1) * chunk_size,
        1 <= batch_len(len, chunk_size, batch) <= chunk_size,
        batch_edge(len, chunk_size, batch) <= len,
{
    let q = len / chunk_size;
    lemma_full_batches(len, chunk_size);
    lemma_batch_edges(len, chunk_size, (batch - 1) as nat, batch);
    lemma_edge_of_full_batch(len, chunk_size, (batch - 1) as nat);
    assert(batch * chunk_size == (batch - 1) * chunk_size + chunk_size) by (nonlinear_arith);
    if batch <= q {
        lemma_edge_of_full_batch(len, chunk_size, batch);
    }
}

/// The sizes of the batches: every batch holds `chunk_size` records, but
/// for the last one where the length is no multiple of the chunk size: it
/// holds the remainder, `len % chunk_size`.
pub proof fn lemma_batch_sizes<T>(records: Seq<T>, chunk_size: nat, batch: nat)
    requires
        chunk_size > 0,
        1 <= batch <= batch_count(records.len(), chunk_size),
    ensures
        batch_of(records, chunk_size, batch).len() == batch_len(
            records.len(),
            chunk_size,
            batch,
        ),
        batch < batch_count(records.len(), chunk_size) || records.len() % chunk_size == 0
            ==> batch_of(records, chunk_size, batch).len() == chunk_size,
        batch == batch_count(records.len(), chunk_size) && records.len() % chunk_size != 0
            ==> batch_of(records, chunk_size, batch).len() == records.len() % chunk_size,
{
    lemma_batch_len(records.len(), chunk_size, batch);
}

/// The first `count` batches together are the partition up to edge `count`.
pub proof fn lemma_batches_are_prefix<T>(records: Seq<T>, chunk_size: nat, count: nat)
    requires
        chunk_size > 0,
    ensures
        batches_joined(records, chunk_size, count) == records.subrange(
            0,
            batch_edge(records.len(), chunk_size, count) as int,
        ),
    decreases count,
{
    let len = records.len();
    if count == 0 {
        lemma_batch_edges(len, chunk_size, 0, 0);
        assert(batches_joined(records, chunk_size, 0) =~= records.subrange(0, 0));
    } else {
        let before = (count - 1) as nat;
        lemma_batches_are_prefix(records, chunk_size, before);
        lemma_batch_edges(len, chunk_size, before, count);
        let a = batch_edge(len, chunk_size, before) as int;
        let b = batch_edge(len, chunk_size, count) as int;
        assert(records.subrange(0, a) + records.subrange(a, b) =~= records.subrange(0, b));
    }
}

/// The batches of a partition, taken in order, give back exactly the
/// partition's records.
pub proof fn lemma_batches_cover<T>(records: Seq<T>, chunk_size: nat)
    requires
        chunk_size > 0,
    ensures
        batches_joined(records, chunk_size, batch_count(records.len(), chunk_size)) == records,
{
    let len = records.len();
    let count = batch_count(len, chunk_size);
    lemma_batches_are_prefix(records, chunk_size, count);
    lemma_batch_edges(len, chunk_size, count, count);
    assert(records.subrange(0, len as int) =~= records);
}

/// The number of batches that a partition of `len` records gives.
pub fn count_batches(len: usize, chunk_size: usize) -> (count: usize)
    requires
        chunk_size > 0,
    ensures
        count == batch_count(len as nat, chunk_size as nat),
{
    if len % chunk_size == 0 {
        len / chunk_size
    } else {
        proof {
            lemma_full_batches(len as nat, chunk_size as nat);
            let q = (len / chunk_size) as nat;
            assert(q * chunk_size >= q) by (nonlinear_arith)
                requires
                    chunk_size >= 1,
            ;
        }
        len / chunk_size + 1
    }
}

/// The start and the end, within its partition, of batch number `batch`
/// (counted from 1).
pub fn batch_bounds(len: usize, chunk_size: usize, batch: usize) -> (bounds: (usize, usize))
    requires
        chunk_size > 0,
        1 <= batch <= batch_count(len as nat, chunk_size as nat),
    ensures
        bounds.0 == batch_edge(len as nat, chunk_size as nat, (batch - 1) as nat),
        bounds.1 == batch_edge(len as nat, chunk_size as nat, batch as nat),
        bounds.0 == (batch - 1) * chunk_size,
        bounds.1 - bounds.0 == batch_len(len as nat, chunk_size as nat, batch as nat),
        bounds.0 < bounds.1 <= len,
{
    proof {
        lemma_batch_len(len as nat, chunk_size as nat, batch as nat);
        assert(batch * chunk_size == (batch - 1) * chunk_size + chunk_size) by (nonlinear_arith);
    }
    let start = (batch - 1) * chunk_size;
    let end = if len - start < chunk_size {
        len
    } else {
        start + chunk_size
    };
    (start, end)
}

/// Batch number `batch` (counted from 1) of a partition, borrowed from it.
/// Asking again gives the same batch: nothing is consumed.
pub fn get_batch<'a, T>(partition: &'a [T], chunk_size: usize, batch: usize) -> (records: &'a [T])
    requires
        chunk_size > 0,
        1 <= batch <= batch_count(partition@.len(), chunk_size as nat),
    ensures
        records@ == batch_of(partition@, chunk_size as nat, batch as nat),
{
    let (start, end) = batch_bounds(partition.len(), chunk_size, batch);
    vstd::slice::slice_subrange(partition, start, end)
}

} // verus!
