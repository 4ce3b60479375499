//! The data loader: each load cycle appends the next batch of consecutive
//! integers to the backing sequence.

use vstd::prelude::*;

verus! {

/// How many rows one load cycle appends.
pub const BATCH_LEN: usize = 20;

/// The backing sequence of a page that has loaded nothing yet: the single
/// row `0`.
pub open spec fn initial_backing() -> Seq<usize> {
    seq![0usize]
}

/// The batch that follows a backing sequence whose last row is `last`: the
/// `BATCH_LEN` integers after it, in order.
pub open spec fn batch_after(last: usize) -> Seq<usize> {
    Seq::new(BATCH_LEN as nat, |i: int| (last + 1 + i) as usize)
}

/// The backing sequence after one more load cycle: the rows it had, then the
/// batch that follows its last row.
pub open spec fn extended(backing: Seq<usize>) -> Seq<usize>
    recommends
        backing.len() > 0,
{
    backing + batch_after(backing.last())
}

/// The backing sequence after `cycles` load cycles on a fresh page.
pub open spec fn backing_after(cycles: nat) -> Seq<usize>
    decreases cycles,
{
    if cycles == 0 {
        initial_backing()
    } else {
        extended(backing_after((cycles - 1) as nat))
    }
}

/// The rows count up from zero without a gap: each row holds its own index.
pub open spec fn is_contiguous(backing: Seq<usize>) -> bool {
    forall|i: int| 0 <= i < backing.len() ==> backing[i] == i
}

/// The backing sequence of a fresh page.
pub fn initial() -> (backing: Vec<usize>)
    ensures
        backing@ == initial_backing(),
{
    let mut backing: Vec<usize> = Vec::new();
    backing.push(0);
    backing
}

/// One load cycle: appends to `backing` the `BATCH_LEN` integers that follow
/// its last row. The sequence must hold a row to continue from, and the new
/// rows must fit the machine's integers.
pub fn load_next(backing: &mut Vec<usize>)
    requires
        old(backing).len() > 0,
        old(backing)@.last() + BATCH_LEN <= usize::MAX,
    ensures
        final(backing)@ == extended(old(backing)@),
{
    let had: usize = backing.len();
    let last: usize = backing[had - 1];
    let mut i: usize = 0;
    while i < BATCH_LEN
        invariant
            i <= BATCH_LEN,
            had == old(backing)@.len() > 0,
            last == old(backing)@.last(),
            last + BATCH_LEN <= usize::MAX,
            backing@.len() == had + i,
            forall|j: int| 0 <= j < had ==> backing@[j] == old(backing)@[j],
            forall|j: int| had <= j < had + i ==> backing@[j] == last + 1 + (j - had),
        decreases BATCH_LEN - i,
    {
        backing.push(last + 1 + i);
        i += 1;
    }
    assert(backing@ =~= extended(old(backing)@));
}

/// A load cycle adds `BATCH_LEN` rows and leaves the rows that were there in
/// their places: the sequence grows, and never shrinks or reorders.
pub proof fn lemma_extended_grows(backing: Seq<usize>)
    ensures
        extended(backing).len() == backing.len() + BATCH_LEN,
        backing.is_prefix_of(extended(backing)),
{
}

/// After `cycles` load cycles the backing sequence holds one row and
/// `BATCH_LEN` more for each cycle.
pub proof fn lemma_backing_len(cycles: nat)
    ensures
        backing_after(cycles).len() == 1 + BATCH_LEN * cycles,
    decreases cycles,
{
    if cycles > 0 {
        lemma_backing_len((cycles - 1) as nat);
        lemma_extended_grows(backing_after((cycles - 1) as nat));
    }
}

/// A load cycle on a contiguous backing sequence leaves it contiguous, as
/// long as the new rows fit the machine's integers.
pub proof fn lemma_extended_contiguous(backing: Seq<usize>)
    requires
        backing.len() > 0,
        is_contiguous(backing),
        backing.len() - 1 + BATCH_LEN <= usize::MAX,
    ensures
        is_contiguous(extended(backing)),
{
}

/// As long as the rows fit the machine's integers, the backing sequence
/// after any number of load cycles counts up from zero without a gap.
pub proof fn lemma_backing_contiguous(cycles: nat)
    requires
        BATCH_LEN * cycles <= usize::MAX,
    ensures
        is_contiguous(backing_after(cycles)),
    decreases cycles,
{
    if cycles > 0 {
        let before = backing_after((cycles - 1) as nat);
        lemma_backing_contiguous((cycles - 1) as nat);
        lemma_backing_len((cycles - 1) as nat);
        lemma_extended_contiguous(before);
    }
}

} // verus!
