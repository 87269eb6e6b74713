//! The check of a run: every thread hands back one token, and the run passed
//! when the tokens, sorted, are exactly 1, 2, ..., n.
use vstd::prelude::*;
use vstd::relations::{sorted_by, total_ordering};

verus! {

broadcast use vstd::seq_lib::group_to_multiset_ensures;

/// The order of the tokens.
pub open spec fn token_leq() -> spec_fn(usize, usize) -> bool {
    |x: usize, y: usize| x <= y
}

/// `s` is in ascending order.
pub open spec fn ascending(s: Seq<usize>) -> bool {
    forall|i: int, j: int| 0 <= i < j < s.len() ==> s[i] <= s[j]
}

/// The tokens `results` in ascending order.
pub open spec fn sorted_tokens(results: Seq<usize>) -> Seq<usize> {
    results.sort_by(token_leq())
}

/// The tokens of a run of `n` threads: 1, 2, ..., n.
pub open spec fn expected_tokens(n: nat) -> Seq<usize> {
    Seq::new(n, |i: int| (i + 1) as usize)
}

/// The pairs (expected, received) for the positions of the sorted tokens `s`
/// at which the token is not its position plus one, in order.
pub open spec fn mismatches_spec(s: Seq<usize>) -> Seq<(usize, usize)>
    decreases s.len(),
{
    if s.len() == 0 {
        Seq::empty()
    } else {
        let prev = mismatches_spec(s.drop_last());
        let i = s.len() - 1;
        if s.last() != i + 1 {
            prev.push(((i + 1) as usize, s.last()))
        } else {
            prev
        }
    }
}

/// `<=` on tokens is a total order.
pub proof fn lemma_token_leq_total()
    ensures
        total_ordering(token_leq()),
{
}

/// Ascending order is sortedness by `token_leq`.
pub proof fn lemma_ascending_sorted(s: Seq<usize>)
    requires
        ascending(s),
    ensures
        sorted_by(s, token_leq()),
{
    assert forall|i: int, j: int| 0 <= i < j < s.len() implies #[trigger] (token_leq())(
        s[i],
        s[j],
    ) by {}
}

/// The ascending sequence with the elements of `s` is `sorted_tokens(s)`.
pub proof fn lemma_sorted_tokens_is(s: Seq<usize>, t: Seq<usize>)
    requires
        ascending(t),
        t.to_multiset() == s.to_multiset(),
    ensures
        sorted_tokens(s) == t,
{
    lemma_token_leq_total();
    s.lemma_sort_by_ensures(token_leq());
    lemma_ascending_sorted(t);
    vstd::seq_lib::lemma_sorted_unique(t, s.sort_by(token_leq()), token_leq());
}

/// Inserting an element into a sequence adds it to the multiset of its elements.
pub proof fn lemma_insert_to_multiset(s: Seq<usize>, pos: int, x: usize)
    requires
        0 <= pos <= s.len(),
    ensures
        s.insert(pos, x).to_multiset() == s.to_multiset().insert(x),
{
    broadcast use vstd::multiset::group_multiset_axioms;

    let a = s.take(pos);
    let b = s.skip(pos);
    assert(s =~= a + b);
    assert(s.insert(pos, x) =~= a.push(x) + b);
    vstd::seq_lib::lemma_multiset_commutative(a, b);
    vstd::seq_lib::lemma_multiset_commutative(a.push(x), b);
    assert(s.insert(pos, x).to_multiset() =~= s.to_multiset().insert(x));
}

/// Puts `x` into the ascending vector `v` so that it stays ascending.
fn insert_ascending(v: &mut Vec<usize>, x: usize)
    requires
        ascending(old(v)@),
    ensures
        ascending(final(v)@),
        final(v)@.to_multiset() == old(v)@.to_multiset().insert(x),
{
    let mut pos: usize = 0;
    while pos < v.len() && v[pos] <= x
        invariant
            pos <= v@.len(),
            forall|k: int| 0 <= k < pos ==> v@[k] <= x,
        decreases v@.len() - pos,
    {
        pos = pos + 1;
    }
    proof {
        lemma_insert_to_multiset(v@, pos as int, x);
    }
    let ghost before = v@;
    v.insert(pos, x);
    assert forall|i: int, j: int| 0 <= i < j < v@.len() implies v@[i] <= v@[j] by {
        if j < pos {
        } else if j == pos {
        } else if i < pos {
            assert(before[j - 1] > x || before[pos as int] > x);
            assert(pos < before.len());
            assert(before[pos as int] <= before[j - 1]);
        } else if i == pos {
            assert(before[pos as int] > x);
            assert(before[pos as int] <= before[j - 1]);
        } else {
        }
    }
}

/// Nothing is out of place exactly when every token equals its position plus one.
pub proof fn lemma_mismatches_empty(s: Seq<usize>)
    ensures
        mismatches_spec(s).len() == 0 <==> forall|i: int| 0 <= i < s.len() ==> s[i] == i + 1,
    decreases s.len(),
{
    if s.len() > 0 {
        lemma_mismatches_empty(s.drop_last());
        if mismatches_spec(s).len() == 0 {
            assert forall|i: int| 0 <= i < s.len() implies s[i] == i + 1 by {
                if i < s.len() - 1 {
                    assert(s[i] == s.drop_last()[i]);
                }
            }
        }
        if forall|i: int| 0 <= i < s.len() ==> s[i] == i + 1 {
            assert forall|i: int| 0 <= i < s.drop_last().len() implies s.drop_last()[i] == i
                + 1 by {
                assert(s[i] == i + 1);
            }
            assert(s.last() == s[s.len() - 1]);
        }
    }
}

/// The pairs (expected, received) at which the sorted `results` differ from
/// 1, 2, ..., n; the run passed when there are none, which is exactly when
/// `results` holds each of 1, 2, ..., n once.
pub fn verify_results(results: Vec<usize>) -> (r: Vec<(usize, usize)>)
    ensures
        r@ == mismatches_spec(sorted_tokens(results@)),
        r@.len() == 0 <==> results@.to_multiset() == expected_tokens(results@.len()).to_multiset(),
{
    let n = results.len();
    let mut sorted: Vec<usize> = Vec::new();
    let mut i: usize = 0;
    while i < n
        invariant
            n == results@.len(),
            i <= n,
            ascending(sorted@),
            sorted@.to_multiset() == results@.take(i as int).to_multiset(),
        decreases n - i,
    {
        insert_ascending(&mut sorted, results[i]);
        assert(results@.take(i + 1) =~= results@.take(i as int).push(results@[i as int]));
        i = i + 1;
    }
    assert(results@.take(n as int) =~= results@);
    proof {
        lemma_sorted_tokens_is(results@, sorted@);
    }
    assert(sorted@.len() == n) by {
        assert(sorted@.to_multiset().len() == results@.to_multiset().len());
    }
    let mut mismatches: Vec<(usize, usize)> = Vec::new();
    let mut k: usize = 0;
    while k < n
        invariant
            n == sorted@.len(),
            k <= n,
            mismatches@ == mismatches_spec(sorted@.take(k as int)),
        decreases n - k,
    {
        let received = sorted[k];
        assert(sorted@.take(k + 1).drop_last() =~= sorted@.take(k as int));
        if received != k + 1 {
            mismatches.push((k + 1, received));
        }
        k = k + 1;
    }
    assert(sorted@.take(n as int) =~= sorted@);
    proof {
        let s = sorted@;
        let e = expected_tokens(n as nat);
        lemma_mismatches_empty(s);
        if mismatches@.len() == 0 {
            assert(s =~= e);
        }
        if results@.to_multiset() == e.to_multiset() {
            assert(ascending(e));
            lemma_sorted_tokens_is(results@, e);
        }
    }
    mismatches
}

} // verus!
