//! Fuzzy search over a list of names: every matching entry above a score
//! floor, best match first.

use vstd::prelude::*;

use fuzzy_matcher::FuzzyMatcher;

verus! {

/// The score the skim matcher gives `item` against `query`, or nothing
/// when the item does not match. The score depends on the two texts alone.
pub uninterp spec fn fuzzy_score_of(item: Seq<char>, query: Seq<char>) -> Option<i64>;

/// Relies on fuzzy_matcher's SkimMatcherV2::fuzzy_match with its default
/// configuration: the same texts always score the same.
#[verifier::external_body]
fn fuzzy_score(item: &str, query: &str) -> (r: Option<i64>)
    ensures
        r == fuzzy_score_of(item@, query@),
{
    fuzzy_matcher::skim::SkimMatcherV2::default().fuzzy_match(item, query)
}

/// Whether the item at position `i` matches well enough to be reported.
pub open spec fn qualifies(items: Seq<String>, query: Seq<char>, min_score: i64, i: int) -> bool {
    match fuzzy_score_of(items[i]@, query) {
        Some(s) => s > min_score,
        None => false,
    }
}

/// Whether position `i` ranks strictly before position `j`: a higher score
/// wins, and the earlier position wins a tie.
pub open spec fn ranks_before(items: Seq<String>, query: Seq<char>, i: int, j: int) -> bool {
    let si = fuzzy_score_of(items[i]@, query);
    let sj = fuzzy_score_of(items[j]@, query);
    match (si, sj) {
        (Some(a), Some(b)) => a > b || (a == b && i < j),
        _ => false,
    }
}

/// How many entries of `s` are set.
pub open spec fn count_true(s: Seq<bool>) -> int
    decreases s.len(),
{
    if s.len() == 0 {
        0
    } else {
        count_true(s.drop_last()) + if s.last() {
            1int
        } else {
            0int
        }
    }
}

proof fn lemma_count_true_bound(s: Seq<bool>)
    ensures
        0 <= count_true(s) <= s.len(),
    decreases s.len(),
{
    if s.len() > 0 {
        lemma_count_true_bound(s.drop_last());
    }
}

proof fn lemma_count_true_set(s: Seq<bool>, i: int)
    requires
        0 <= i < s.len(),
        !s[i],
    ensures
        count_true(s.update(i, true)) == count_true(s) + 1,
    decreases s.len(),
{
    if i == s.len() - 1 {
        assert(s.update(i, true).drop_last() =~= s.drop_last());
    } else {
        assert(s.update(i, true).drop_last() =~= s.drop_last().update(i, true));
        lemma_count_true_set(s.drop_last(), i);
    }
}

/// Every item that matches `query` above `min_score`, by position, best
/// score first; equal scores keep their list order.
pub fn fuzzy_search(query: &str, items: &Vec<String>, min_score: i64) -> (r: Vec<usize>)
    ensures
        forall|a: int|
            0 <= a < r@.len() ==> (#[trigger] r@[a]) < items@.len() && qualifies(
                items@,
                query@,
                min_score,
                r@[a] as int,
            ),
        forall|i: int|
            0 <= i < items@.len() && qualifies(items@, query@, min_score, i) ==> exists|a: int|
                0 <= a < r@.len() && (#[trigger] r@[a]) == i,
        forall|a: int, b: int|
            0 <= a < b < r@.len() ==> ranks_before(
                items@,
                query@,
                (#[trigger] r@[a]) as int,
                (#[trigger] r@[b]) as int,
            ),
{
    let n = items.len();
    let mut scores: Vec<Option<i64>> = Vec::new();
    let mut i: usize = 0;
    while i < n
        invariant
            0 <= i <= n,
            n == items@.len(),
            scores@.len() == i,
            forall|j: int|
                0 <= j < i ==> (#[trigger] scores@[j]) == fuzzy_score_of(items@[j]@, query@),
        decreases n - i,
    {
        let s = fuzzy_score(items[i].as_str(), query);
        scores.push(s);
        i += 1;
    }
    let mut taken: Vec<bool> = Vec::new();
    let mut i: usize = 0;
    while i < n
        invariant
            0 <= i <= n,
            taken@.len() == i,
            forall|j: int| 0 <= j < i ==> !(#[trigger] taken@[j]),
        decreases n - i,
    {
        taken.push(false);
        i += 1;
    }
    proof {
        assert(count_true(taken@) == 0) by {
            lemma_count_all_false(taken@);
        }
    }
    let mut r: Vec<usize> = Vec::new();
    loop
        invariant
            n == items@.len(),
            scores@.len() == n,
            taken@.len() == n,
            forall|j: int|
                0 <= j < n ==> (#[trigger] scores@[j]) == fuzzy_score_of(items@[j]@, query@),
            r@.len() == count_true(taken@),
            forall|a: int|
                0 <= a < r@.len() ==> (#[trigger] r@[a]) < n && qualifies(
                    items@,
                    query@,
                    min_score,
                    r@[a] as int,
                ),
            forall|j: int|
                0 <= j < n ==> ((#[trigger] taken@[j]) <==> exists|a: int|
                    0 <= a < r@.len() && (#[trigger] r@[a]) == j),
            forall|a: int, b: int|
                0 <= a < b < r@.len() ==> ranks_before(
                    items@,
                    query@,
                    (#[trigger] r@[a]) as int,
                    (#[trigger] r@[b]) as int,
                ),
            forall|a: int, j: int|
                0 <= a < r@.len() && 0 <= j < n && !(#[trigger] taken@[j]) && qualifies(
                    items@,
                    query@,
                    min_score,
                    j,
                ) ==> ranks_before(items@, query@, (#[trigger] r@[a]) as int, j),
        decreases n - r@.len() + 1,
    {
        proof {
            lemma_count_true_bound(taken@);
        }
        let mut best: Option<usize> = None;
        let mut j: usize = 0;
        while j < n
            invariant
                0 <= j <= n,
                n == items@.len(),
                scores@.len() == n,
                taken@.len() == n,
                forall|t: int|
                    0 <= t < n ==> (#[trigger] scores@[t]) == fuzzy_score_of(items@[t]@, query@),
                match best {
                    Some(b) => b < j && b < n && !taken@[b as int] && qualifies(
                        items@,
                        query@,
                        min_score,
                        b as int,
                    ) && forall|t: int|
                        0 <= t < j && !taken@[t] && qualifies(items@, query@, min_score, t) ==> (t
                            == b || ranks_before(items@, query@, b as int, t)),
                    None => forall|t: int|
                        0 <= t < j ==> !(!taken@[t] && qualifies(items@, query@, min_score, t)),
                },
            decreases n - j,
        {
            if !taken[j] {
                let qualifies_here = match scores[j] {
                    Some(s) => s > min_score,
                    None => false,
                };
                if qualifies_here {
                    let better = match best {
                        None => true,
                        Some(b) => {
                            let sb = scores[b].unwrap();
                            let sj = scores[j].unwrap();
                            sj > sb
                        },
                    };
                    if better {
                        best = Some(j);
                    }
                }
            }
            j += 1;
        }
        match best {
            None => {
                proof {
                    assert forall|i: int|
                        0 <= i < items@.len() && qualifies(items@, query@, min_score, i) implies
                        exists|a: int| 0 <= a < r@.len() && (#[trigger] r@[a]) == i by {
                        assert(taken@[i]);
                    }
                }
                return r;
            },
            Some(b) => {
                let ghost pre_taken = taken@;
                let ghost pre_r = r@;
                proof {
                    lemma_count_true_set(taken@, b as int);
                }
                taken[b] = true;
                r.push(b);
                proof {
                    assert forall|j2: int| 0 <= j2 < n implies ((#[trigger] taken@[j2]) <==> exists|
                        a: int,
                    | 0 <= a < r@.len() && (#[trigger] r@[a]) == j2) by {
                        if j2 == b as int {
                            assert(r@[r@.len() - 1] == b);
                        } else if pre_taken[j2] {
                            let a = choose|a: int|
                                0 <= a < pre_r.len() && (#[trigger] pre_r[a]) == j2;
                            assert(r@[a] == j2);
                        } else {
                            assert forall|a: int| 0 <= a < r@.len() implies (#[trigger] r@[a])
                                != j2 by {
                                if a < pre_r.len() {
                                    if pre_r[a] == j2 {
                                        assert(pre_taken[j2]);
                                    }
                                } else {
                                    assert(r@[a] == b);
                                }
                            }
                        }
                    }
                    assert forall|a: int, t: int|
                        0 <= a < r@.len() && 0 <= t < n && !(#[trigger] taken@[t]) && qualifies(
                            items@,
                            query@,
                            min_score,
                            t,
                        ) implies ranks_before(items@, query@, (#[trigger] r@[a]) as int, t) by {
                        if a < r@.len() - 1 {
                        } else {
                            assert(r@[a] == b);
                        }
                    }
                }
            },
        }
    }
}

proof fn lemma_count_all_false(s: Seq<bool>)
    requires
        forall|j: int| 0 <= j < s.len() ==> !(#[trigger] s[j]),
    ensures
        count_true(s) == 0,
    decreases s.len(),
{
    if s.len() > 0 {
        lemma_count_all_false(s.drop_last());
    }
}

} // verus!
