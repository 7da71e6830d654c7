//! Threefold repetition over the hashes of one line of play.

use vstd::prelude::*;

verus! {

/// How often a hash occurs among the first `upto` entries of a history.
pub open spec fn occurrences(history: Seq<u64>, hash: u64, upto: int) -> int
    decreases upto,
{
    if upto <= 0 {
        0
    } else {
        occurrences(history, hash, upto - 1) + if history[upto - 1] == hash {
            1int
        } else {
            0int
        }
    }
}

/// Whether a hash occurs at least three times in a history.
pub open spec fn threefold(hash: u64, history: Seq<u64>) -> bool {
    occurrences(history, hash, history.len() as int) >= 3
}

/// The recursive count agrees with the multiset of the history.
pub proof fn lemma_occurrences_is_multiset_count(history: Seq<u64>, hash: u64)
    ensures
        occurrences(history, hash, history.len() as int) == history.to_multiset().count(hash),
    decreases history.len(),
{
    broadcast use vstd::seq_lib::group_to_multiset_ensures;

    if history.len() > 0 {
        let front = history.drop_last();
        lemma_occurrences_is_multiset_count(front, hash);
        lemma_occurrences_prefix(history, front, hash, front.len() as int);
        assert(history == front.push(history.last()));
    }
}

/// Counting looks only at the entries below `upto`.
pub proof fn lemma_occurrences_prefix(a: Seq<u64>, b: Seq<u64>, hash: u64, upto: int)
    requires
        upto <= a.len(),
        upto <= b.len(),
        forall|i: int| 0 <= i < upto ==> a[i] == b[i],
    ensures
        occurrences(a, hash, upto) == occurrences(b, hash, upto),
    decreases upto,
{
    if upto > 0 {
        lemma_occurrences_prefix(a, b, hash, upto - 1);
    }
}

/// Tells whether a hash occurs at least three times in a history.
pub fn is_threefold(current_hash: u64, hash_history: &[u64]) -> (repeated: bool)
    ensures
        repeated == threefold(current_hash, hash_history@),
{
    let mut count: usize = 0;
    let mut i: usize = 0;
    while i < hash_history.len()
        invariant
            i <= hash_history@.len(),
            count == occurrences(hash_history@, current_hash, i as int),
            count <= i,
        decreases hash_history@.len() - i,
    {
        if hash_history[i] == current_hash {
            count = count + 1;
        }
        i = i + 1;
    }
    count >= 3
}

} // verus!
