//! High-score tables: best scores first, at most a hundred kept.
use vstd::prelude::*;
use vstd::multiset::Multiset;

verus! {

/// The most scores a table keeps.
pub const MAX_SCORES: usize = 100;

/// Scores from best to worst.
pub open spec fn sorted_desc(s: Seq<u32>) -> bool {
    forall|i: int, j: int| 0 <= i < j < s.len() ==> #[trigger] s[i] >= #[trigger] s[j]
}

/// `after` is the table `before` with `score` added: all scores from best to
/// worst, cut after the hundredth.
pub open spec fn recorded(before: Seq<u32>, score: u32, after: Seq<u32>) -> bool {
    exists|all: Seq<u32>|
        {
            &&& #[trigger] all.to_multiset() == before.push(score).to_multiset()
            &&& sorted_desc(all)
            &&& after == if all.len() > 100 { all.take(100) } else { all }
        }
}

/// A recorded table is sorted best first, holds at most a hundred scores, and
/// grows by one until it is full.
pub proof fn lemma_recorded_table(before: Seq<u32>, score: u32, after: Seq<u32>)
    requires
        recorded(before, score, after),
    ensures
        sorted_desc(after),
        after.len() <= 100,
        after.len() == if before.len() + 1 > 100 { 100 } else { before.len() + 1 },
{
    let all = choose|all: Seq<u32>|
        {
            &&& #[trigger] all.to_multiset() == before.push(score).to_multiset()
            &&& sorted_desc(all)
            &&& after == if all.len() > 100 { all.take(100) } else { all }
        };
    assert(all.len() == before.push(score).len()) by {
        vstd::seq_lib::to_multiset_len(all);
        vstd::seq_lib::to_multiset_len(before.push(score));
    }
    assert(sorted_desc(after));
}

/// Adds a score to a table, sorts it from best to worst and keeps the best hundred.
pub fn record_score(scores: &mut Vec<u32>, score: u32)
    ensures
        recorded(old(scores)@, score, final(scores)@),
{
    broadcast use vstd::seq_lib::group_to_multiset_ensures, vstd::multiset::group_multiset_axioms;

    scores.push(score);
    let ghost all_items = scores@;
    assert(Seq::<u32>::empty().to_multiset() =~= Multiset::empty()) by {
        assert(Seq::<u32>::empty().to_multiset().len() == 0);
    }
    let mut sorted: Vec<u32> = Vec::new();
    while scores.len() > 0
        invariant
            sorted_desc(sorted@),
            sorted@.to_multiset().add(scores@.to_multiset()) == all_items.to_multiset(),
        decreases scores@.len(),
    {
        let ghost rest = scores@;
        let v = match scores.pop() {
            Some(v) => v,
            None => 0,
        };
        assert(rest == scores@.push(v));
        proof {
            vstd::seq_lib::to_multiset_build(scores@, v);
        }
        assert(rest.to_multiset() == scores@.to_multiset().insert(v));
        let ghost s0 = sorted@;
        let mut p: usize = 0;
        while p < sorted.len() && sorted[p] >= v
            invariant
                p <= sorted@.len(),
                sorted@ == s0,
                forall|m: int| 0 <= m < p ==> #[trigger] sorted@[m] >= v,
            decreases sorted@.len() - p,
        {
            p += 1;
        }
        sorted.insert(p, v);
        assert forall|k: int| 0 <= k < sorted@.len() implies #[trigger] sorted@[k] == if k < p {
            s0[k]
        } else if k == p {
            v
        } else {
            s0[k - 1]
        } by {}
        assert(sorted_desc(sorted@)) by {
            assert forall|i: int, j: int| 0 <= i < j < sorted@.len() implies #[trigger] sorted@[i] >= #[trigger] sorted@[j] by {
                if i < p && j > p {
                    assert(s0[i] >= s0[j - 1]);
                } else if i == p && j > p {
                    assert(s0[p as int] < v);
                    assert(s0[p as int] >= s0[j - 1]);
                } else if j == p {
                    assert(s0[i] >= v);
                } else if i > p {
                    assert(s0[i - 1] >= s0[j - 1]);
                }
            }
        }
        assert(sorted@ == s0.insert(p as int, v));
        proof {
            vstd::seq_lib::to_multiset_insert(s0, p as int, v);
        }
        assert(sorted@.to_multiset() == s0.to_multiset().insert(v));
        assert(sorted@.to_multiset().add(scores@.to_multiset()) =~= s0.to_multiset().add(rest.to_multiset()));
    }
    assert(scores@ =~= Seq::<u32>::empty());
    assert(scores@.to_multiset() =~= Multiset::empty()) by {
        assert(scores@.to_multiset().len() == 0);
    }
    assert(sorted@.to_multiset() =~= all_items.to_multiset());
    let ghost all_sorted = sorted@;
    sorted.truncate(MAX_SCORES);
    assert(recorded(old(scores)@, score, sorted@)) by {
        assert(sorted_desc(all_sorted));
        assert(all_items == old(scores)@.push(score));
        assert(all_sorted.to_multiset() == old(scores)@.push(score).to_multiset());
        assert(sorted@ == if all_sorted.len() > 100 { all_sorted.take(100) } else { all_sorted });
    }
    *scores = sorted;
}

/// The 1-based place of a score in a table: one more than the position of the
/// first score that it matches or beats, or one past the end.
pub fn calculate_rank(scores: &[u32], current_score: u32) -> (rank: usize)
    requires
        scores@.len() < usize::MAX,
    ensures
        1 <= rank <= scores@.len() + 1,
        forall|j: int| 0 <= j < rank - 1 ==> scores@[j] > current_score,
        rank <= scores@.len() ==> scores@[rank - 1] <= current_score,
{
    let mut i: usize = 0;
    while i < scores.len()
        invariant
            i <= scores@.len(),
            scores@.len() < usize::MAX,
            forall|j: int| 0 <= j < i ==> scores@[j] > current_score,
        decreases scores@.len() - i,
    {
        if scores[i] <= current_score {
            return i + 1;
        }
        i += 1;
    }
    scores.len() + 1
}

} // verus!
