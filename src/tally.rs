//! Quorum arithmetic and winner determination over a proposal's vote counts.
//!
//! These work on the count sequence alone, independent of storage.

use vstd::prelude::*;

verus! {

/// Sum of all counts.
pub open spec fn sum_counts(s: Seq<u128>) -> int
    decreases s.len(),
{
    if s.len() == 0 {
        0
    } else {
        sum_counts(s.drop_last()) + s.last()
    }
}

/// Votes needed for quorum: the floor of `percent` percent of the registered voters.
pub open spec fn required_votes(registered: nat, percent: nat) -> nat {
    (registered * percent) / 100
}

/// Quorum is measured against the whole voter base: with nobody registered it
/// is never reached.
pub open spec fn quorum_reached(registered: nat, percent: nat, counts: Seq<u128>) -> bool {
    registered > 0 && sum_counts(counts) >= required_votes(registered, percent)
}

/// Option `i` holds strictly more votes than every other option, and at least one.
pub open spec fn is_unique_leader(s: Seq<u128>, i: int) -> bool {
    &&& 0 <= i < s.len()
    &&& s[i] > 0
    &&& forall|j: int| 0 <= j < s.len() && j != i ==> #[trigger] s[j] < s[i]
}

/// Some option is the unique leader.
pub open spec fn has_unique_leader(s: Seq<u128>) -> bool {
    exists|i: int| is_unique_leader(s, i)
}

/// Option `i` is the first to reach the highest count, and that count is nonzero.
pub open spec fn is_first_maximum(s: Seq<u128>, i: int) -> bool {
    &&& 0 <= i < s.len()
    &&& s[i] > 0
    &&& forall|j: int| 0 <= j < i ==> #[trigger] s[j] < s[i]
    &&& forall|j: int| 0 <= j < s.len() ==> #[trigger] s[j] <= s[i]
}

pub proof fn lemma_sum_counts_nonneg(s: Seq<u128>)
    ensures
        sum_counts(s) >= 0,
    decreases s.len(),
{
    if s.len() > 0 {
        lemma_sum_counts_nonneg(s.drop_last());
    }
}

/// Summing a prefix never gives more than summing the whole sequence.
pub proof fn lemma_sum_counts_prefix(s: Seq<u128>, k: int)
    requires
        0 <= k <= s.len(),
    ensures
        sum_counts(s.take(k)) <= sum_counts(s),
    decreases s.len() - k,
{
    if k < s.len() {
        lemma_sum_counts_prefix(s, k + 1);
        assert(s.take(k + 1).drop_last() =~= s.take(k));
    } else {
        assert(s.take(k) =~= s);
    }
}

/// Raising one count by one raises the sum by one.
pub proof fn lemma_sum_counts_increment(s: Seq<u128>, i: int)
    requires
        0 <= i < s.len(),
        s[i] < u128::MAX,
    ensures
        sum_counts(s.update(i, (s[i] + 1) as u128)) == sum_counts(s) + 1,
    decreases s.len(),
{
    let t = s.update(i, (s[i] + 1) as u128);
    if i == s.len() - 1 {
        assert(t.drop_last() =~= s.drop_last());
    } else {
        lemma_sum_counts_increment(s.drop_last(), i);
        assert(t.drop_last() =~= s.drop_last().update(i, (s[i] + 1) as u128));
    }
}

/// A sequence of zeros sums to zero.
pub proof fn lemma_sum_counts_zeros(s: Seq<u128>)
    requires
        forall|j: int| 0 <= j < s.len() ==> #[trigger] s[j] == 0,
    ensures
        sum_counts(s) == 0,
    decreases s.len(),
{
    if s.len() > 0 {
        lemma_sum_counts_zeros(s.drop_last());
    }
}

/// Whether the counts reach quorum: `registered` voters exist and the votes cast
/// are at least `percent` percent of them, rounded down.
pub fn quorum_met(registered: u32, percent: u32, counts: &Vec<u128>) -> (r: bool)
    ensures
        r == quorum_reached(registered as nat, percent as nat, counts@),
{
    if registered == 0 {
        return false;
    }
    let r128: u128 = registered as u128;
    let p128: u128 = percent as u128;
    assert(r128 * p128 <= 0xffff_ffff_ffff_ffff_u128) by (nonlinear_arith)
        requires
            r128 <= 0xffff_ffff_u128,
            p128 <= 0xffff_ffff_u128,
    ;
    let required: u128 = (r128 * p128) / 100;
    assert(required == required_votes(registered as nat, percent as nat));
    let mut sum: u128 = 0;
    let mut k: usize = 0;
    while k < counts.len()
        invariant
            0 <= k <= counts.len(),
            sum == sum_counts(counts@.take(k as int)),
            registered > 0,
            required == required_votes(registered as nat, percent as nat),
        decreases counts.len() - k,
    {
        proof {
            assert(counts@.take(k + 1).drop_last() =~= counts@.take(k as int));
            lemma_sum_counts_prefix(counts@, k + 1);
        }
        match sum.checked_add(counts[k]) {
            None => {
                assert(sum_counts(counts@.take(k + 1)) == sum + counts@[k as int]);
                return true;
            },
            Some(s) => {
                sum = s;
            },
        }
        k = k + 1;
    }
    proof {
        assert(counts@.take(k as int) =~= counts@);
    }
    sum >= required
}

/// The option that strictly leads every other with a nonzero count, if any.
///
/// Scans left to right with the running maximum; a later count equal to the
/// maximum flags a tie, which only a strictly greater count clears.
pub fn unique_leader(counts: &Vec<u128>) -> (r: Option<usize>)
    ensures
        match r {
            Some(i) => is_unique_leader(counts@, i as int),
            None => !has_unique_leader(counts@),
        },
{
    let mut max: u128 = 0;
    let mut leader: usize = 0;
    let mut tie: bool = false;
    let ghost mut tie_with: int = 0;
    let mut k: usize = 0;
    while k < counts.len()
        invariant
            0 <= k <= counts.len(),
            forall|j: int| 0 <= j < k ==> #[trigger] counts@[j] <= max,
            max > 0 ==> leader < k && counts@[leader as int] == max,
            max == 0 ==> !tie,
            tie ==> 0 <= tie_with < k && tie_with != leader && counts@[tie_with] == max,
            !tie ==> forall|j: int| 0 <= j < k && j != leader ==> #[trigger] counts@[j] < max || max == 0,
        decreases counts.len() - k,
    {
        let v = counts[k];
        if v > max {
            max = v;
            leader = k;
            tie = false;
        } else if v == max && v > 0 {
            tie = true;
            proof {
                tie_with = k as int;
            }
        }
        k = k + 1;
    }
    if tie || max == 0 {
        proof {
            assert forall|i: int| !is_unique_leader(counts@, i) by {
                if is_unique_leader(counts@, i) {
                    if tie {
                        if i == leader {
                            assert(counts@[tie_with] < counts@[i]);
                        } else {
                            assert(counts@[leader as int] < counts@[i]);
                        }
                    } else {
                        assert(counts@[i] <= max);
                    }
                }
            }
        }
        None
    } else {
        Some(leader)
    }
}

/// The first option to reach the highest count, if that count is nonzero.
/// Ties are not detected: of equal leaders the earliest is returned.
pub fn first_maximum(counts: &Vec<u128>) -> (r: Option<usize>)
    ensures
        match r {
            Some(i) => is_first_maximum(counts@, i as int),
            None => forall|j: int| 0 <= j < counts@.len() ==> #[trigger] counts@[j] == 0,
        },
{
    let mut max: u128 = 0;
    let mut leader: Option<usize> = None;
    let mut k: usize = 0;
    while k < counts.len()
        invariant
            0 <= k <= counts.len(),
            forall|j: int| 0 <= j < k ==> #[trigger] counts@[j] <= max,
            match leader {
                Some(i) => i < k && max > 0 && counts@[i as int] == max
                    && forall|j: int| 0 <= j < i ==> #[trigger] counts@[j] < max,
                None => max == 0,
            },
        decreases counts.len() - k,
    {
        let v = counts[k];
        if v > max {
            max = v;
            leader = Some(k);
        }
        k = k + 1;
    }
    leader
}

} // verus!
