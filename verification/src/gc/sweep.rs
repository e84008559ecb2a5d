//! Selecting the entries of a directory listing that a sweep removes, and
//! totalling what their removal frees.

use vstd::prelude::*;

use rayon::iter::IntoParallelRefIterator;
use rayon::iter::ParallelIterator;

verus! {

/// The sum of a sequence of byte counts.
pub open spec fn total(values: Seq<u64>) -> int
    decreases values.len(),
{
    if values.len() == 0 {
        0
    } else {
        total(values.drop_last()) + values.last()
    }
}

/// The sizes freed by a sweep, in listing order: an outcome `Some(size)`
/// says that the entry goes and frees `size` bytes, `None` that it stays.
pub open spec fn freed_sizes(outcomes: Seq<Option<u64>>) -> Seq<u64>
    decreases outcomes.len(),
{
    if outcomes.len() == 0 {
        seq![]
    } else {
        let rest = freed_sizes(outcomes.drop_last());
        match outcomes.last() {
            Some(size) => rest.push(size),
            None => rest,
        }
    }
}

/// The positions, in ascending order, of the entries that a sweep removes.
pub open spec fn picked(outcomes: Seq<Option<u64>>) -> Seq<usize>
    decreases outcomes.len(),
{
    if outcomes.len() == 0 {
        seq![]
    } else {
        let rest = picked(outcomes.drop_last());
        match outcomes.last() {
            Some(_) => rest.push((outcomes.len() - 1) as usize),
            None => rest,
        }
    }
}

/// What a sweep removes: the positions of the removed entries, and the bytes
/// their removal frees.
pub struct Tally {
    pub picks: Vec<usize>,
    pub bytes: u64,
}

/// Sums byte counts in parallel.
///
/// Calls `rayon`'s `par_iter` on the vector and `ParallelIterator::sum`.
/// The contract claims that the result is the arithmetic sum of the values.
/// rayon adds contiguous runs of the vector and then adds the partial sums,
/// so every intermediate value is at most the whole sum; where that fits in
/// a `u64`, no addition overflows and the order of the additions does not
/// change the result.
#[verifier::external_body]
fn par_sum(values: &Vec<u64>) -> (sum: u64)
    requires
        total(values@) <= u64::MAX,
    ensures
        sum == total(values@),
{
    values.par_iter().sum::<u64>()
}

/// Collects the positions of the entries whose outcome is `Some` and the
/// total of the sizes they free.
pub fn tally(outcomes: &Vec<Option<u64>>) -> (t: Tally)
    requires
        total(freed_sizes(outcomes@)) <= u64::MAX,
    ensures
        t.picks@ == picked(outcomes@),
        t.bytes == total(freed_sizes(outcomes@)),
{
    let mut picks: Vec<usize> = Vec::new();
    let mut sizes: Vec<u64> = Vec::new();
    let n = outcomes.len();
    for i in 0..n
        invariant
            n == outcomes@.len(),
            picks@ == picked(outcomes@.take(i as int)),
            sizes@ == freed_sizes(outcomes@.take(i as int)),
    {
        assert(outcomes@.take(i + 1).drop_last() =~= outcomes@.take(i as int));
        match outcomes[i] {
            Some(size) => {
                picks.push(i);
                sizes.push(size);
            },
            None => {},
        }
    }
    assert(outcomes@.take(n as int) =~= outcomes@);
    let bytes = par_sum(&sizes);
    Tally { picks, bytes }
}

/// An entry is removed exactly when its outcome is `Some`; the positions
/// of the removed entries lie within the listing, and there are as many of
/// them as there are freed sizes.
pub proof fn lemma_picked_members(outcomes: Seq<Option<u64>>)
    requires
        outcomes.len() <= usize::MAX,
    ensures
        forall|k: int|
            #![trigger outcomes[k]]
            0 <= k < outcomes.len() ==> (picked(outcomes).contains(k as usize) <==> outcomes[k] is Some),
        forall|j: int| 0 <= j < picked(outcomes).len() ==> picked(outcomes)[j] < outcomes.len(),
        picked(outcomes).len() == freed_sizes(outcomes).len(),
    decreases outcomes.len(),
{
    if outcomes.len() > 0 {
        let init = outcomes.drop_last();
        lemma_picked_members(init);
        let rest = picked(init);
        let last = (outcomes.len() - 1) as usize;
        assert forall|k: int|
            0 <= k < outcomes.len() implies (picked(outcomes).contains(k as usize)
            <==> outcomes[k] is Some) by {
            if k < outcomes.len() - 1 {
                assert(init[k] == outcomes[k]);
                if outcomes.last() is Some {
                    assert(picked(outcomes) == rest.push(last));
                    if picked(outcomes).contains(k as usize) {
                        let j = choose|j: int|
                            0 <= j < picked(outcomes).len() && picked(outcomes)[j] == k as usize;
                        if j < rest.len() {
                            assert(rest.contains(k as usize));
                        }
                    }
                    if rest.contains(k as usize) {
                        let j = choose|j: int| 0 <= j < rest.len() && rest[j] == k as usize;
                        assert(picked(outcomes)[j] == k as usize);
                    }
                }
            } else {
                if outcomes.last() is Some {
                    assert(picked(outcomes)[rest.len() as int] == last);
                } else {
                    if rest.contains(k as usize) {
                        let j = choose|j: int| 0 <= j < rest.len() && rest[j] == k as usize;
                        assert(rest[j] < init.len());
                    }
                }
            }
        }
    }
}

/// A listing in which no entry goes loses nothing and frees nothing.
pub proof fn lemma_nothing_picked(outcomes: Seq<Option<u64>>)
    requires
        forall|k: int| 0 <= k < outcomes.len() ==> outcomes[k] is None,
    ensures
        picked(outcomes) == Seq::<usize>::empty(),
        freed_sizes(outcomes) == Seq::<u64>::empty(),
        total(freed_sizes(outcomes)) == 0,
    decreases outcomes.len(),
{
    if outcomes.len() > 0 {
        let init = outcomes.drop_last();
        assert forall|k: int| 0 <= k < init.len() implies init[k] is None by {
            assert(init[k] == outcomes[k]);
        }
        lemma_nothing_picked(init);
        assert(outcomes[outcomes.len() - 1] is None);
    }
}

/// Appending an entry to a listing: an entry that goes adds its size to
/// what is freed and its position to what is removed; an entry that stays
/// changes neither. An empty listing frees nothing.
pub proof fn lemma_sweep_grows_by_entry(outcomes: Seq<Option<u64>>, size: u64)
    ensures
        total(freed_sizes(Seq::<Option<u64>>::empty())) == 0,
        picked(Seq::<Option<u64>>::empty()).len() == 0,
        total(freed_sizes(outcomes.push(Some(size)))) == total(freed_sizes(outcomes)) + size,
        total(freed_sizes(outcomes.push(None))) == total(freed_sizes(outcomes)),
        picked(outcomes.push(Some(size))) == picked(outcomes).push(outcomes.len() as usize),
        picked(outcomes.push(None)) == picked(outcomes),
{
    assert(outcomes.push(Some(size)).drop_last() =~= outcomes);
    assert(outcomes.push(None).drop_last() =~= outcomes);
    assert(freed_sizes(outcomes.push(Some(size))).drop_last() =~= freed_sizes(outcomes));
}

} // verus!
