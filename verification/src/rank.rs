//! Ranking candidate rooms by their distance.

use vstd::prelude::*;
use vstd::seq_lib::to_multiset_insert;

verus! {

/// A candidate room: its name and its distance to the destination.
pub type Candidate = (String, u128);

/// The place of a candidate at distance `d` among the ranked candidates `t`:
/// behind those that are closer, in front of all others.
pub open spec fn place_for(t: Seq<Candidate>, d: u128) -> int
    decreases t.len(),
{
    if t.len() == 0 || t[0].1 >= d {
        0
    } else {
        1 + place_for(t.drop_first(), d)
    }
}

/// The candidates `s` in ascending order of distance. Candidates at the same
/// distance keep the order that they have in `s`.
pub open spec fn ranked(s: Seq<Candidate>) -> Seq<Candidate>
    decreases s.len(),
{
    if s.len() == 0 {
        Seq::empty()
    } else {
        let t = ranked(s.drop_first());
        t.insert(place_for(t, s[0].1), s[0])
    }
}

/// The `k` closest of the candidates `s` in ascending order of distance, or
/// all of them where there are fewer than `k`.
pub open spec fn ranking(s: Seq<Candidate>, k: int) -> Seq<Candidate> {
    if k < s.len() {
        ranked(s).take(k)
    } else {
        ranked(s)
    }
}

/// Whether the distances of `s` never fall from one candidate to the next.
pub open spec fn ascending(s: Seq<Candidate>) -> bool {
    forall|i: int, j: int| 0 <= i <= j < s.len() ==> s[i].1 <= s[j].1
}

/// The test whether a candidate is at distance `d`.
pub open spec fn at_distance(d: u128) -> spec_fn(Candidate) -> bool {
    |c: Candidate| c.1 == d
}

/// `place_for` is the one place with closer candidates in front of it only
/// and none of them at it.
pub proof fn lemma_place_for(t: Seq<Candidate>, d: u128, p: int)
    requires
        0 <= p <= t.len(),
        forall|i: int| 0 <= i < p ==> t[i].1 < d,
        p < t.len() ==> t[p].1 >= d,
    ensures
        place_for(t, d) == p,
    decreases t.len(),
{
    if p > 0 {
        let rest = t.drop_first();
        assert forall|i: int| 0 <= i < p - 1 implies rest[i].1 < d by {
            assert(rest[i] == t[i + 1]);
        }
        lemma_place_for(rest, d, p - 1);
    }
}

/// `place_for` lies within the sequence, behind closer candidates only, and
/// the candidate at it is no closer.
pub proof fn lemma_place_found(t: Seq<Candidate>, d: u128)
    ensures
        0 <= place_for(t, d) <= t.len(),
        forall|i: int| 0 <= i < place_for(t, d) ==> t[i].1 < d,
        place_for(t, d) < t.len() ==> t[place_for(t, d)].1 >= d,
    decreases t.len(),
{
    if t.len() != 0 && t[0].1 < d {
        let rest = t.drop_first();
        lemma_place_found(rest, d);
        let p = place_for(t, d);
        assert forall|i: int| 0 <= i < p implies t[i].1 < d by {
            if i > 0 {
                assert(t[i] == rest[i - 1]);
            }
        }
        if p < t.len() {
            assert(t[p] == rest[p - 1]);
        }
    }
}

/// Ranking neither adds nor drops a candidate: the ranked candidates are the
/// given ones in another order.
pub proof fn lemma_ranked_same_candidates(s: Seq<Candidate>)
    ensures
        ranked(s).len() == s.len(),
        ranked(s).to_multiset() == s.to_multiset(),
    decreases s.len(),
{
    if s.len() == 0 {
        assert(s == Seq::<Candidate>::empty());
    } else {
        let rest = s.drop_first();
        let t = ranked(rest);
        lemma_ranked_same_candidates(rest);
        lemma_place_found(t, s[0].1);
        let p = place_for(t, s[0].1);
        assert(rest.insert(0, s[0]) == s);
        to_multiset_insert(t, p, s[0]);
        to_multiset_insert(rest, 0, s[0]);
        assert(ranked(s).to_multiset() == t.to_multiset().insert(s[0]));
        assert(s.to_multiset() == rest.to_multiset().insert(s[0]));
    }
}

/// The ranked candidates are in ascending order of distance.
pub proof fn lemma_ranked_ascending(s: Seq<Candidate>)
    ensures
        ascending(ranked(s)),
    decreases s.len(),
{
    if s.len() != 0 {
        let t = ranked(s.drop_first());
        lemma_ranked_ascending(s.drop_first());
        lemma_place_found(t, s[0].1);
        let p = place_for(t, s[0].1);
        let r = t.insert(p, s[0]);
        assert forall|i: int, j: int| 0 <= i <= j < r.len() implies r[i].1 <= r[j].1 by {
            let a = if i < p {
                t[i]
            } else if i == p {
                s[0]
            } else {
                t[i - 1]
            };
            let b = if j < p {
                t[j]
            } else if j == p {
                s[0]
            } else {
                t[j - 1]
            };
            assert(r[i] == a);
            assert(r[j] == b);
            if i < p && j > p {
                assert(t[i].1 <= t[j - 1].1);
            }
            if i == p && j > p {
                assert(t[p].1 <= t[j - 1].1);
            }
            if i > p {
                assert(t[i - 1].1 <= t[j - 1].1);
            }
        }
    }
}

/// Ranking is stable: the candidates at any one distance come in the order
/// in which they were given.
pub proof fn lemma_ranked_stable(s: Seq<Candidate>, d: u128)
    ensures
        ranked(s).filter(at_distance(d)) == s.filter(at_distance(d)),
    decreases s.len(),
{
    let pred = at_distance(d);
    if s.len() == 0 {
    } else {
        let x = s[0];
        let rest = s.drop_first();
        let t = ranked(rest);
        lemma_ranked_stable(rest, d);
        lemma_place_found(t, x.1);
        let p = place_for(t, x.1);
        let front = t.take(p);
        let back = t.skip(p);
        assert(t == front + back);
        assert(t.insert(p, x) == front.push(x) + back);
        Seq::filter_distributes_over_add(front, back, pred);
        Seq::filter_distributes_over_add(front.push(x), back, pred);
        front.lemma_filter_push(x, pred);
        rest.lemma_filter_prepend(x, pred);
        assert(seq![x] + rest == s);
        if pred(x) {
            assert(front.all(|c: Candidate| !pred(c))) by {
                assert forall|i: int| 0 <= i < front.len() implies !pred(#[trigger] front[i]) by {
                    assert(front[i] == t[i]);
                }
            }
            front.lemma_all_neg_filter_empty(pred);
            assert(front.filter(pred) == Seq::<Candidate>::empty());
            assert(front.filter(pred).push(x) + back.filter(pred) == seq![x] + (front.filter(pred)
                + back.filter(pred)));
        }
    }
}

/// A ranking holds `k` candidates, or all of them where there are fewer: it
/// is never padded.
pub proof fn lemma_ranking_len(s: Seq<Candidate>, k: int)
    requires
        0 <= k,
    ensures
        ranking(s, k).len() == (if k < s.len() {
            k
        } else {
            s.len() as int
        }),
{
    lemma_ranked_same_candidates(s);
}

/// A ranking is in ascending order, and no candidate that it leaves out is
/// closer than one that it holds.
pub proof fn lemma_ranking_closest(s: Seq<Candidate>, k: int)
    requires
        0 <= k,
    ensures
        ascending(ranking(s, k)),
        forall|i: int, j: int|
            0 <= i < ranking(s, k).len() && ranking(s, k).len() <= j < s.len() ==> ranking(s, k)[i].1
                <= ranked(s)[j].1,
        forall|i: int| 0 <= i < ranking(s, k).len() ==> ranking(s, k)[i] == ranked(s)[i],
{
    lemma_ranked_same_candidates(s);
    lemma_ranked_ascending(s);
}

/// A candidate that is no candidate, at the greatest distance there is, is
/// ranked behind every candidate that is closer.
pub proof fn lemma_farthest_last(s: Seq<Candidate>, i: int, j: int)
    requires
        0 <= i <= j < s.len(),
        ranked(s)[i].1 == u128::MAX,
    ensures
        ranked(s)[j].1 == u128::MAX,
{
    lemma_ranked_same_candidates(s);
    lemma_ranked_ascending(s);
}

/// The first of ascending candidates is the first of those at its distance,
/// and what follows it is ascending too.
proof fn lemma_ascending_head(a: Seq<Candidate>, d: u128)
    requires
        ascending(a),
        a.len() > 0,
    ensures
        ascending(a.drop_first()),
        a.filter(at_distance(d)) == (if a[0].1 == d {
            seq![a[0]]
        } else {
            Seq::<Candidate>::empty()
        }) + a.drop_first().filter(at_distance(d)),
        a.filter(at_distance(a[0].1)).len() > 0,
        a.filter(at_distance(a[0].1))[0] == a[0],
        d < a[0].1 ==> a.filter(at_distance(d)).len() == 0,
{
    let rest = a.drop_first();
    assert(seq![a[0]] + rest == a);
    rest.lemma_filter_prepend(a[0], at_distance(d));
    rest.lemma_filter_prepend(a[0], at_distance(a[0].1));
    assert forall|i: int, j: int| 0 <= i <= j < rest.len() implies rest[i].1 <= rest[j].1 by {
        assert(rest[i] == a[i + 1] && rest[j] == a[j + 1]);
    }
    if d < a[0].1 {
        assert(rest.all(|c: Candidate| !at_distance(d)(c))) by {
            assert forall|i: int| 0 <= i < rest.len() implies !at_distance(d)(#[trigger] rest[i]) by {
                assert(rest[i] == a[i + 1]);
                assert(a[0].1 <= a[i + 1].1);
            }
        }
        rest.lemma_all_neg_filter_empty(at_distance(d));
    }
}

/// There is one stable ranking only: two ascending sequences that hold the
/// same candidates in the same order at every distance are the same sequence.
pub proof fn lemma_ranking_unique(a: Seq<Candidate>, b: Seq<Candidate>)
    requires
        ascending(a),
        ascending(b),
        forall|d: u128| a.filter(at_distance(d)) == b.filter(at_distance(d)),
    ensures
        a == b,
    decreases a.len() + b.len(),
{
    if a.len() == 0 && b.len() == 0 {
        assert(a == b);
    } else if a.len() == 0 {
        lemma_ascending_head(b, b[0].1);
        assert(a.filter(at_distance(b[0].1)).len() == 0) by {
            a.lemma_filter_len(at_distance(b[0].1));
        }
    } else if b.len() == 0 {
        lemma_ascending_head(a, a[0].1);
        assert(b.filter(at_distance(a[0].1)).len() == 0) by {
            b.lemma_filter_len(at_distance(a[0].1));
        }
    } else {
        lemma_ascending_head(a, a[0].1);
        lemma_ascending_head(b, b[0].1);
        lemma_ascending_head(a, b[0].1);
        lemma_ascending_head(b, a[0].1);
        assert(a[0].1 == b[0].1);
        assert(a[0] == b[0]);
        let ra = a.drop_first();
        let rb = b.drop_first();
        assert forall|d: u128| ra.filter(at_distance(d)) == rb.filter(at_distance(d)) by {
            lemma_ascending_head(a, d);
            lemma_ascending_head(b, d);
            let fa = ra.filter(at_distance(d));
            let fb = rb.filter(at_distance(d));
            if a[0].1 == d {
                assert((seq![a[0]] + fa).drop_first() == fa);
                assert((seq![b[0]] + fb).drop_first() == fb);
            } else {
                assert(Seq::<Candidate>::empty() + fa == fa);
                assert(Seq::<Candidate>::empty() + fb == fb);
            }
        }
        lemma_ranking_unique(ra, rb);
        assert(seq![a[0]] + ra == a);
        assert(seq![b[0]] + rb == b);
    }
}

/// The ranked candidates are the one stable ranking of the given ones: any
/// ascending sequence that holds, at every distance, the candidates of `s` in
/// the order of `s` is `ranked(s)`.
pub proof fn lemma_ranked_is_the_stable_ranking(s: Seq<Candidate>, r: Seq<Candidate>)
    requires
        ascending(r),
        forall|d: u128| r.filter(at_distance(d)) == s.filter(at_distance(d)),
    ensures
        r == ranked(s),
{
    lemma_ranked_ascending(s);
    assert forall|d: u128| r.filter(at_distance(d)) == ranked(s).filter(at_distance(d)) by {
        lemma_ranked_stable(s, d);
    }
    lemma_ranking_unique(r, ranked(s));
}

/// The place of a candidate at distance `d` among the ranked `out`.
fn find_place(out: &Vec<Candidate>, d: u128) -> (p: usize)
    ensures
        p == place_for(out@, d),
        p <= out.len(),
{
    let mut p: usize = 0;
    while p < out.len() && out[p].1 < d
        invariant
            p <= out.len(),
            forall|i: int| 0 <= i < p ==> out@[i].1 < d,
        decreases out.len() - p,
    {
        p = p + 1;
    }
    proof {
        lemma_place_for(out@, d, p as int);
    }
    p
}

/// Orders the candidates by ascending distance, those at the same distance
/// in the order given, and keeps the first `k` of them.
pub fn rank(candidates: Vec<Candidate>, k: usize) -> (res: Vec<Candidate>)
    ensures
        res@ == ranking(candidates@, k as int),
{
    let ghost all = candidates@;
    let mut rest = candidates;
    let mut out: Vec<Candidate> = Vec::new();
    assert(all.skip(all.len() as int) == Seq::<Candidate>::empty());
    while rest.len() > 0
        invariant
            rest.len() <= all.len(),
            rest@ == all.take(rest.len() as int),
            out@ == ranked(all.skip(rest.len() as int)),
        decreases rest.len(),
    {
        let ghost n = rest.len() as int;
        let candidate = rest.pop().unwrap();
        let place = find_place(&out, candidate.1);
        out.insert(place, candidate);
        proof {
            let tail = all.skip(n - 1);
            assert(tail[0] == candidate);
            assert(tail.drop_first() == all.skip(n));
            assert(rest@ == all.take(n - 1));
        }
    }
    assert(all.skip(0) == all);
    proof {
        lemma_ranked_same_candidates(all);
    }
    out.truncate(k);
    out
}

} // verus!
