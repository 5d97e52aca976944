//! Top-k ranking of candidates by an integer score key.
//!
//! A candidate is named by its position in the sequence of keys. A higher key
//! ranks first; among equal keys the earlier position ranks first, so the
//! ranking of a given sequence of keys is unique.

use vstd::prelude::*;

verus! {

/// Candidate `a` ranks strictly before candidate `b`.
pub open spec fn ranks_before(keys: Seq<i64>, a: int, b: int) -> bool {
    keys[a] > keys[b] || (keys[a] == keys[b] && a < b)
}

/// Candidate `c` is one of the ranked ones.
pub open spec fn placed(order: Seq<usize>, c: int) -> bool {
    exists|i: int| 0 <= i < order.len() && #[trigger] order[i] == c
}

/// Every ranked candidate ranks before `c`.
pub open spec fn outranked(keys: Seq<i64>, order: Seq<usize>, c: int) -> bool {
    forall|i: int| 0 <= i < order.len() ==> ranks_before(keys, #[trigger] order[i] as int, c)
}

/// `order` lists the best `k` of the first `m` candidates, best first: it is
/// as long as `k` and `m` allow, strictly ordered, and a candidate is left out
/// only when the list is full and all of its entries rank before that one.
pub open spec fn is_top_of(keys: Seq<i64>, m: int, k: int, order: Seq<usize>) -> bool {
    &&& order.len() == if k < m { k } else { m }
    &&& forall|i: int| 0 <= i < order.len() ==> 0 <= #[trigger] order[i] < m
    &&& forall|i: int, j: int|
        0 <= i < j < order.len() ==> ranks_before(
            keys,
            #[trigger] order[i] as int,
            #[trigger] order[j] as int,
        )
    &&& forall|c: int|
        0 <= c < m ==> #[trigger] placed(order, c) || (order.len() == k && outranked(
            keys,
            order,
            c,
        ))
}

/// `order` is the ranking of all candidates of `keys`, cut to `top_k` entries.
pub open spec fn is_ranking(keys: Seq<i64>, top_k: int, order: Seq<usize>) -> bool {
    is_top_of(keys, keys.len() as int, top_k, order)
}

/// What the list of the best `k` becomes when candidate `c` enters at `p`.
pub open spec fn admitted(old_order: Seq<usize>, p: int, c: usize, k: int) -> Seq<usize> {
    if old_order.len() + 1 > k {
        old_order.insert(p, c).drop_last()
    } else {
        old_order.insert(p, c)
    }
}

proof fn lemma_admit(keys: Seq<i64>, c: usize, k: int, old_order: Seq<usize>, p: int)
    requires
        0 <= c < keys.len(),
        is_top_of(keys, c as int, k, old_order),
        0 <= p <= old_order.len(),
        p < k,
        forall|i: int| 0 <= i < p ==> keys[#[trigger] old_order[i] as int] >= keys[c as int],
        p < old_order.len() ==> keys[old_order[p] as int] < keys[c as int],
    ensures
        is_top_of(keys, c + 1, k, admitted(old_order, p, c, k)),
{
    let grown = old_order.insert(p, c);
    let order = admitted(old_order, p, c, k);
    let n = old_order.len() as int;
    assert(grown.len() == n + 1);
    assert forall|i: int| 0 <= i < grown.len() implies #[trigger] grown[i] == (if i < p {
        old_order[i]
    } else if i == p {
        c
    } else {
        old_order[i - 1]
    }) by {}
    // every old entry from `p` on has a smaller key than `c`
    assert forall|j: int| p <= j < n implies keys[#[trigger] old_order[j] as int] < keys[c as int] by {
        if j > p {
            assert(ranks_before(keys, old_order[p] as int, old_order[j] as int));
        }
    }
    assert forall|i: int, j: int| 0 <= i < j < grown.len() implies ranks_before(
        keys,
        #[trigger] grown[i] as int,
        #[trigger] grown[j] as int,
    ) by {
        if j < p {
            assert(ranks_before(keys, old_order[i] as int, old_order[j] as int));
        } else if j == p {
            assert(keys[old_order[i] as int] >= keys[c as int]);
        } else if i < p {
            assert(ranks_before(keys, old_order[i] as int, old_order[j - 1] as int));
        } else if i == p {
            assert(keys[old_order[j - 1] as int] < keys[c as int]);
        } else {
            assert(ranks_before(keys, old_order[i - 1] as int, old_order[j - 1] as int));
        }
    }
    assert forall|i: int| 0 <= i < order.len() implies #[trigger] order[i] == grown[i] by {}
    assert forall|x: int| 0 <= x < c + 1 implies #[trigger] placed(order, x) || (order.len() == k
        && outranked(keys, order, x)) by {
        if n + 1 > k {
            // the list was full: its last entry leaves
            let last = grown[n];
            if x == last {
                assert forall|i: int| 0 <= i < order.len() implies ranks_before(
                    keys,
                    #[trigger] order[i] as int,
                    x,
                ) by {
                    assert(ranks_before(keys, grown[i] as int, grown[n] as int));
                }
            } else if x == c {
                assert(order[p] == c);
            } else if placed(old_order, x) {
                let i = choose|i: int| 0 <= i < old_order.len() && #[trigger] old_order[i] == x;
                let q = if i < p { i } else { i + 1 };
                assert(grown[q] == x);
                assert(q < n);
                assert(order[q] == x);
            } else {
                assert(outranked(keys, old_order, x));
                assert forall|i: int| 0 <= i < order.len() implies ranks_before(
                    keys,
                    #[trigger] order[i] as int,
                    x,
                ) by {
                    if i < p {
                        assert(ranks_before(keys, old_order[i] as int, x));
                    } else if i == p {
                        assert(ranks_before(keys, old_order[n - 1] as int, x));
                        assert(ranks_before(keys, grown[p] as int, grown[n] as int));
                    } else {
                        assert(ranks_before(keys, old_order[i - 1] as int, x));
                    }
                }
            }
        } else {
            if x == c {
                assert(order[p] == c);
            } else {
                assert(placed(old_order, x));
                let i = choose|i: int| 0 <= i < old_order.len() && #[trigger] old_order[i] == x;
                let q = if i < p { i } else { i + 1 };
                assert(order[q] == x);
            }
        }
    }
}

proof fn lemma_pass(keys: Seq<i64>, c: usize, k: int, order: Seq<usize>)
    requires
        0 <= c < keys.len(),
        is_top_of(keys, c as int, k, order),
        order.len() == k,
        forall|i: int| 0 <= i < order.len() ==> keys[#[trigger] order[i] as int] >= keys[c as int],
    ensures
        is_top_of(keys, c + 1, k, order),
{
    assert forall|x: int| 0 <= x < c + 1 implies #[trigger] placed(order, x) || (order.len() == k
        && outranked(keys, order, x)) by {
        if x == c {
            assert forall|i: int| 0 <= i < order.len() implies ranks_before(
                keys,
                #[trigger] order[i] as int,
                x,
            ) by {
                assert(keys[order[i] as int] >= keys[c as int]);
            }
        }
    }
}

/// Ranks the candidates by descending key, earlier position first among equal
/// keys, and returns the positions of the best `top_k` of them, best first
/// (all of them when there are no more than `top_k`).
pub fn rank_top_k(keys: &[i64], top_k: usize) -> (order: Vec<usize>)
    ensures
        is_ranking(keys@, top_k as int, order@),
{
    let mut order: Vec<usize> = Vec::new();
    let mut c: usize = 0;
    while c < keys.len()
        invariant
            c <= keys@.len(),
            is_top_of(keys@, c as int, top_k as int, order@),
        decreases keys@.len() - c,
    {
        let mut p: usize = 0;
        while p < order.len() && keys[order[p]] >= keys[c]
            invariant
                c < keys@.len(),
                p <= order@.len(),
                is_top_of(keys@, c as int, top_k as int, order@),
                forall|i: int| 0 <= i < p ==> keys@[#[trigger] order@[i] as int] >= keys@[c as int],
            decreases order@.len() - p,
        {
            p += 1;
        }
        if p < top_k {
            let ghost old_order = order@;
            order.insert(p, c);
            if order.len() > top_k {
                order.pop();
            }
            proof {
                lemma_admit(keys@, c, top_k as int, old_order, p as int);
                assert(order@ =~= admitted(old_order, p as int, c, top_k as int));
            }
        } else {
            proof {
                lemma_pass(keys@, c, top_k as int, order@);
            }
        }
        c += 1;
    }
    order
}

/// The integer that orders a single-precision score: the bit pattern read
/// as sign and magnitude. Patterns with the sign bit clear keep their value,
/// those with the sign bit set give the negated magnitude, so both zeros give 0.
pub open spec fn key_of_bits(bits: u32) -> i64 {
    if bits < 0x8000_0000 {
        bits as i64
    } else {
        (0x8000_0000 - bits) as i64
    }
}

/// The keys of a sequence of score bit patterns.
pub open spec fn keys_of(scores: Seq<u32>) -> Seq<i64> {
    Seq::new(scores.len(), |i: int| key_of_bits(scores[i]))
}

/// The key by which a score with the bit pattern `bits` is ranked.
pub fn score_key(bits: u32) -> (k: i64)
    ensures
        k == key_of_bits(bits),
{
    if bits < 0x8000_0000 {
        bits as i64
    } else {
        -((bits - 0x8000_0000) as i64)
    }
}

/// Ranks candidates by their scores, given as single-precision bit patterns,
/// and returns the positions of the best `top_k`, best first.
pub fn rank_scores(scores: &[u32], top_k: usize) -> (order: Vec<usize>)
    ensures
        is_ranking(keys_of(scores@), top_k as int, order@),
{
    let mut keys: Vec<i64> = Vec::new();
    let mut i: usize = 0;
    while i < scores.len()
        invariant
            i <= scores@.len(),
            keys@.len() == i,
            forall|j: int| 0 <= j < i ==> keys@[j] == key_of_bits(scores@[j]),
        decreases scores@.len() - i,
    {
        keys.push(score_key(scores[i]));
        i += 1;
    }
    assert(keys@ =~= keys_of(scores@));
    rank_top_k(keys.as_slice(), top_k)
}

/// A ranking holds `top_k` entries when there are more candidates than that,
/// and all candidates otherwise; no candidate occurs twice; the keys never
/// increase along it; and no candidate that was left out has a higher key
/// than one that was taken.
pub proof fn law_ranking_order(keys: Seq<i64>, top_k: int, order: Seq<usize>)
    requires
        0 <= top_k,
        is_ranking(keys, top_k, order),
    ensures
        top_k < keys.len() ==> order.len() == top_k,
        top_k >= keys.len() ==> order.len() == keys.len(),
        forall|i: int| 0 <= i < order.len() ==> 0 <= #[trigger] order[i] < keys.len(),
        forall|i: int, j: int|
            0 <= i < j < order.len() ==> #[trigger] order[i] != #[trigger] order[j],
        forall|i: int, j: int|
            0 <= i < j < order.len() ==> keys[#[trigger] order[i] as int] >= keys[
                #[trigger] order[j] as int],
        forall|c: int, i: int|
            0 <= c < keys.len() && !#[trigger] placed(order, c) && 0 <= i < order.len()
                ==> keys[c] <= keys[#[trigger] order[i] as int],
{
    assert forall|i: int, j: int| 0 <= i < j < order.len() implies #[trigger] order[i]
        != #[trigger] order[j] && keys[order[i] as int] >= keys[order[j] as int] by {
        assert(ranks_before(keys, order[i] as int, order[j] as int));
    }
    assert forall|c: int, i: int|
        0 <= c < keys.len() && !#[trigger] placed(order, c) && 0 <= i < order.len() implies keys[c]
        <= keys[#[trigger] order[i] as int] by {
        assert(placed(order, c) || (order.len() == top_k && outranked(keys, order, c)));
        assert(ranks_before(keys, order[i] as int, c));
    }
}

proof fn lemma_first_difference(
    keys: Seq<i64>,
    m: int,
    k: int,
    a: Seq<usize>,
    b: Seq<usize>,
    i: int,
)
    requires
        is_top_of(keys, m, k, a),
        is_top_of(keys, m, k, b),
        0 <= i < a.len(),
        forall|j: int| 0 <= j < i ==> a[j] == b[j],
    ensures
        !ranks_before(keys, a[i] as int, b[i] as int),
{
    let x = a[i] as int;
    assert(placed(b, x) || (b.len() == k && outranked(keys, b, x)));
    if !ranks_before(keys, a[i] as int, b[i] as int) {
    } else if placed(b, x) {
        let j = choose|j: int| 0 <= j < b.len() && #[trigger] b[j] == x;
        if j < i {
            assert(ranks_before(keys, a[j] as int, a[i] as int));
        } else if j > i {
            assert(ranks_before(keys, b[i] as int, b[j] as int));
        }
    } else {
        assert(ranks_before(keys, b[i] as int, x));
    }
}

proof fn lemma_same_entry(keys: Seq<i64>, m: int, k: int, a: Seq<usize>, b: Seq<usize>, i: int)
    requires
        is_top_of(keys, m, k, a),
        is_top_of(keys, m, k, b),
        0 <= i < a.len(),
    ensures
        a[i] == b[i],
    decreases i,
{
    assert forall|j: int| 0 <= j < i implies a[j] == b[j] by {
        lemma_same_entry(keys, m, k, a, b, j);
    }
    if a[i] != b[i] {
        if ranks_before(keys, a[i] as int, b[i] as int) {
            lemma_first_difference(keys, m, k, a, b, i);
        } else {
            assert(ranks_before(keys, b[i] as int, a[i] as int));
            lemma_first_difference(keys, m, k, b, a, i);
        }
    }
}

/// Keys and `top_k` determine the ranking: two sequences that both are the
/// ranking of the same candidates are equal, ties included.
pub proof fn law_ranking_unique(keys: Seq<i64>, top_k: int, a: Seq<usize>, b: Seq<usize>)
    requires
        is_ranking(keys, top_k, a),
        is_ranking(keys, top_k, b),
    ensures
        a == b,
{
    assert forall|i: int| 0 <= i < a.len() implies a[i] == b[i] by {
        lemma_same_entry(keys, keys.len() as int, top_k, a, b, i);
    }
    assert(a =~= b);
}

} // verus!
