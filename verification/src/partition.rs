//! The partitioner: an as-equal-as-possible contiguous split of a dataset
//! among a fixed number of workers.

use vstd::prelude::*;

verus! {

/// The position in a dataset of `len` records at which the first `index` of
/// `workers` shares end: `index * len / workers`, rounded down.
pub open spec fn boundary(len: nat, workers: nat, index: nat) -> nat
    recommends
        workers > 0,
{
    (index * len) / workers
}

/// The share of worker `thread` (counted from 1) out of `workers`.
pub open spec fn partition_of<T>(data: Seq<T>, workers: nat, thread: nat) -> Seq<T>
    recommends
        1 <= thread <= workers,
{
    data.subrange(
        boundary(data.len(), workers, (thread - 1) as nat) as int,
        boundary(data.len(), workers, thread) as int,
    )
}

/// The shares of workers `1..=count`, one after the other.
pub open spec fn joined<T>(data: Seq<T>, workers: nat, count: nat) -> Seq<T>
    decreases count,
{
    if count == 0 {
        Seq::empty()
    } else {
        joined(data, workers, (count - 1) as nat) + partition_of(data, workers, count)
    }
}

/// Boundaries never move backwards as the index grows.
pub proof fn lemma_boundary_monotone(len: nat, workers: nat, i: nat, j: nat)
    requires
        workers > 0,
        i <= j,
    ensures
        boundary(len, workers, i) <= boundary(len, workers, j),
{
    assert(i * len <= j * len) by (nonlinear_arith)
        requires
            i <= j,
    ;
    vstd::arithmetic::div_mod::lemma_div_is_ordered(
        (i * len) as int,
        (j * len) as int,
        workers as int,
    );
}

/// The first boundary is the start of the dataset and the last one its end.
pub proof fn lemma_boundary_ends(len: nat, workers: nat)
    requires
        workers > 0,
    ensures
        boundary(len, workers, 0) == 0,
        boundary(len, workers, workers) == len,
{
    assert(0 * len == 0) by (nonlinear_arith);
    assert((workers * len) / workers == len) by (nonlinear_arith)
        requires
            workers > 0,
    ;
}

/// No boundary lies beyond the end of the dataset.
pub proof fn lemma_boundary_in_range(len: nat, workers: nat, index: nat)
    requires
        workers > 0,
        index <= workers,
    ensures
        boundary(len, workers, index) <= len,
{
    lemma_boundary_monotone(len, workers, index, workers);
    lemma_boundary_ends(len, workers);
}

/// The split is as equal as can be: every share holds `len / workers`
/// records, or one more.
pub proof fn lemma_partition_sizes(len: nat, workers: nat, thread: nat)
    requires
        workers > 0,
        1 <= thread <= workers,
    ensures
        boundary(len, workers, (thread - 1) as nat) + len / workers <= boundary(
            len,
            workers,
            thread,
        ) <= boundary(len, workers, (thread - 1) as nat) + len / workers + 1,
{
    let k = workers as int;
    let x = ((thread - 1) * len) as int;
    let y = (thread * len) as int;
    assert(y == x + len) by (nonlinear_arith)
        requires
            x == (thread - 1) * len,
            y == thread * len,
    ;
    vstd::arithmetic::div_mod::lemma_fundamental_div_mod(x, k);
    vstd::arithmetic::div_mod::lemma_fundamental_div_mod(len as int, k);
    let q = x / k + (len as int) / k;
    let r = x % k + (len as int) % k;
    assert(y == q * k + r) by (nonlinear_arith)
        requires
            y == x + len,
            x == k * (x / k) + x % k,
            len == k * ((len as int) / k) + (len as int) % k,
            q == x / k + (len as int) / k,
            r == x % k + (len as int) % k,
    ;
    if r < k {
        vstd::arithmetic::div_mod::lemma_fundamental_div_mod_converse(y, k, q, r);
    } else {
        assert(y == (q + 1) * k + (r - k)) by (nonlinear_arith)
            requires
                y == q * k + r,
        ;
        vstd::arithmetic::div_mod::lemma_fundamental_div_mod_converse(y, k, q + 1, r - k);
    }
}

/// Partitioning is a function of the dataset, the worker count and the
/// worker's number alone: whatever stands for the share of one worker is
/// the same records in the same order, however often it is asked for.
pub proof fn lemma_partitioning_repeats<T>(
    data: Seq<T>,
    workers: nat,
    thread: nat,
    first: Seq<T>,
    second: Seq<T>,
)
    requires
        first == partition_of(data, workers, thread),
        second == partition_of(data, workers, thread),
    ensures
        first == second,
{
}

/// The first `count` shares together are the dataset up to boundary `count`.
pub proof fn lemma_joined_is_prefix<T>(data: Seq<T>, workers: nat, count: nat)
    requires
        workers > 0,
        count <= workers,
    ensures
        joined(data, workers, count) == data.subrange(
            0,
            boundary(data.len(), workers, count) as int,
        ),
    decreases count,
{
    let len = data.len();
    if count == 0 {
        lemma_boundary_ends(len, workers);
        assert(joined(data, workers, 0) =~= data.subrange(0, 0));
    } else {
        let before = (count - 1) as nat;
        lemma_joined_is_prefix(data, workers, before);
        lemma_boundary_monotone(len, workers, before, count);
        lemma_boundary_in_range(len, workers, count);
        let a = boundary(len, workers, before) as int;
        let b = boundary(len, workers, count) as int;
        assert(data.subrange(0, a) + data.subrange(a, b) =~= data.subrange(0, b));
    }
}

/// The partitions tile the dataset: taken in order they give back exactly
/// the dataset, an earlier partition ends no later than a later one starts,
/// so no record lies in two, and each lies within the dataset.
pub proof fn lemma_partitions_tile<T>(data: Seq<T>, workers: nat)
    requires
        workers >= 1,
    ensures
        joined(data, workers, workers) == data,
        forall|i: nat, j: nat|
            1 <= i < j <= workers ==> #[trigger] boundary(data.len(), workers, i)
                <= #[trigger] boundary(data.len(), workers, (j - 1) as nat),
        forall|i: nat|
            1 <= i <= workers ==> boundary(data.len(), workers, (i - 1) as nat)
                <= #[trigger] boundary(data.len(), workers, i) <= data.len(),
{
    let len = data.len();
    lemma_joined_is_prefix(data, workers, workers);
    lemma_boundary_ends(len, workers);
    assert(data.subrange(0, len as int) =~= data);
    assert forall|i: nat, j: nat| 1 <= i < j <= workers implies #[trigger] boundary(
        len,
        workers,
        i,
    ) <= #[trigger] boundary(len, workers, (j - 1) as nat) by {
        lemma_boundary_monotone(len, workers, i, (j - 1) as nat);
    }
    assert forall|i: nat| 1 <= i <= workers implies boundary(len, workers, (i - 1) as nat)
        <= #[trigger] boundary(len, workers, i) <= len by {
        lemma_boundary_monotone(len, workers, (i - 1) as nat, i);
        lemma_boundary_in_range(len, workers, i);
    }
}

/// Computes `boundary` without overflow, whatever the sizes.
pub fn partition_boundary(len: usize, workers: usize, index: usize) -> (at: usize)
    requires
        workers >= 1,
        index <= workers,
    ensures
        at == boundary(len as nat, workers as nat, index as nat),
        at <= len,
{
    proof {
        lemma_boundary_in_range(len as nat, workers as nat, index as nat);
        assert(index * len <= 0xffff_ffff_ffff_ffff * 0xffff_ffff_ffff_ffff) by (nonlinear_arith)
            requires
                index <= 0xffff_ffff_ffff_ffff,
                len <= 0xffff_ffff_ffff_ffff,
        ;
    }
    let product: u128 = (index as u128) * (len as u128);
    let at: u128 = product / (workers as u128);
    at as usize
}

/// The start and the end of the share of worker `thread` (counted from 1).
pub fn partition_bounds(len: usize, thread: usize, num_threads: usize) -> (bounds: (usize, usize))
    requires
        1 <= thread <= num_threads,
    ensures
        bounds.0 == boundary(len as nat, num_threads as nat, (thread - 1) as nat),
        bounds.1 == boundary(len as nat, num_threads as nat, thread as nat),
        bounds.0 <= bounds.1 <= len,
{
    proof {
        lemma_boundary_monotone(
            len as nat,
            num_threads as nat,
            (thread - 1) as nat,
            thread as nat,
        );
    }
    let start = partition_boundary(len, num_threads, thread - 1);
    let end = partition_boundary(len, num_threads, thread);
    (start, end)
}

/// Takes out of `data` the share of worker `thread` (counted from 1) out of
/// `num_threads`: the records from `(thread - 1) * len / num_threads` up to
/// `thread * len / num_threads`, in their order.
pub fn get_slice<T>(data: Vec<T>, thread: usize, num_threads: usize) -> (slice: Vec<T>)
    requires
        1 <= thread <= num_threads,
    ensures
        slice@ == partition_of(data@, num_threads as nat, thread as nat),
{
    let mut rest = data;
    let (start, end) = partition_bounds(rest.len(), thread, num_threads);
    rest.truncate(end);
    let slice = rest.split_off(start);
    assert(slice@ =~= partition_of(data@, num_threads as nat, thread as nat));
    slice
}

} // verus!
