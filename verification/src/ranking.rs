//! Ranking of candidates: the best `limit` of a list, highest value first,
//! equal values in the order in which they came.

use vstd::prelude::*;

verus! {

/// A token with the value that ranks it: the key of its score while the
/// candidates are chosen, its weight while one of them is drawn.
#[derive(PartialEq, Eq, Structural, Clone, Copy, Debug)]
pub struct Candidate {
    /// The token's identifier.
    pub token: i32,
    /// The value the token is ranked by; a higher value ranks first.
    pub value: u32,
}

/// Whether the values never rise along the sequence.
pub open spec fn descending(s: Seq<Candidate>) -> bool {
    forall|i: int, j: int| 0 <= i < j < s.len() ==> s[i].value >= s[j].value
}

/// Where a value enters a ranking: behind every leading entry that is not
/// below it.
pub open spec fn entry_point(s: Seq<Candidate>, value: u32) -> int
    decreases s.len(),
{
    if s.len() == 0 || s[0].value < value {
        0
    } else {
        1 + entry_point(s.drop_first(), value)
    }
}

/// A ranking of at most `limit` entries after one more candidate came: it
/// enters at its entry point, and what then exceeds the limit falls off the
/// end.
pub open spec fn enlist(s: Seq<Candidate>, item: Candidate, limit: nat) -> Seq<Candidate> {
    let grown = s.insert(entry_point(s, item.value), item);
    if grown.len() > limit {
        grown.take(limit as int)
    } else {
        grown
    }
}

/// The best `limit` of `items`, highest value first and equal values in
/// their order in `items`: the candidates enlisted one by one.
pub open spec fn ranked(items: Seq<Candidate>, limit: nat) -> Seq<Candidate>
    decreases items.len(),
{
    if items.len() == 0 {
        Seq::empty()
    } else {
        enlist(ranked(items.drop_last(), limit), items.last(), limit)
    }
}

/// The candidates of a score vector: token `i` with the `i`-th key.
pub open spec fn candidates_of(keys: Seq<u32>) -> Seq<Candidate> {
    Seq::new(keys.len(), |i: int| Candidate { token: i as i32, value: keys[i] })
}

/// The entry point lies within the ranking.
pub proof fn lemma_entry_point_bounds(s: Seq<Candidate>, value: u32)
    ensures
        0 <= entry_point(s, value) <= s.len(),
    decreases s.len(),
{
    if s.len() > 0 && s[0].value >= value {
        lemma_entry_point_bounds(s.drop_first(), value);
    }
}

/// In a ranking whose first `p` entries are not below a value and whose
/// other entries are, the value enters at `p`.
pub proof fn lemma_entry_point_is(s: Seq<Candidate>, value: u32, p: int)
    requires
        0 <= p <= s.len(),
        forall|i: int| 0 <= i < p ==> (#[trigger] s[i]).value >= value,
        forall|i: int| p <= i < s.len() ==> (#[trigger] s[i]).value < value,
    ensures
        entry_point(s, value) == p,
    decreases s.len(),
{
    if s.len() == 0 {
    } else if p == 0 {
        assert(s[0].value < value);
    } else {
        assert(s[0].value >= value);
        let rest = s.drop_first();
        assert forall|i: int| 0 <= i < p - 1 implies (#[trigger] rest[i]).value >= value by {
            assert(rest[i] == s[i + 1]);
        }
        assert forall|i: int| p - 1 <= i < rest.len() implies (#[trigger] rest[i]).value
            < value by {
            assert(rest[i] == s[i + 1]);
        }
        lemma_entry_point_is(rest, value, p - 1);
    }
}

/// Entries before the entry point are not below the value; in a descending
/// ranking the entries from it on are.
pub proof fn lemma_entry_point_splits(s: Seq<Candidate>, value: u32)
    requires
        descending(s),
    ensures
        forall|i: int| 0 <= i < entry_point(s, value) ==> (#[trigger] s[i]).value >= value,
        forall|i: int| entry_point(s, value) <= i < s.len() ==> (#[trigger] s[i]).value < value,
    decreases s.len(),
{
    lemma_entry_point_bounds(s, value);
    if s.len() == 0 {
    } else if s[0].value < value {
        assert forall|i: int| 0 <= i < s.len() implies (#[trigger] s[i]).value < value by {
            if i > 0 {
                assert(s[0].value >= s[i].value);
            }
        }
    } else {
        let rest = s.drop_first();
        assert(descending(rest)) by {
            assert forall|i: int, j: int| 0 <= i < j < rest.len() implies rest[i].value
                >= rest[j].value by {
                assert(rest[i] == s[i + 1]);
                assert(rest[j] == s[j + 1]);
            }
        }
        lemma_entry_point_splits(rest, value);
        lemma_entry_point_bounds(rest, value);
        assert forall|i: int| 0 <= i < entry_point(s, value) implies (#[trigger] s[i]).value
            >= value by {
            if i > 0 {
                assert(rest[i - 1] == s[i]);
            }
        }
        assert forall|i: int| entry_point(s, value) <= i < s.len() implies (#[trigger] s[i]).value
            < value by {
            assert(rest[i - 1] == s[i]);
        }
    }
}

/// Enlisting a candidate keeps a ranking descending and within the limit,
/// and adds nothing but the candidate.
pub proof fn lemma_enlist(s: Seq<Candidate>, item: Candidate, limit: nat)
    requires
        descending(s),
        s.len() <= limit,
    ensures
        descending(enlist(s, item, limit)),
        enlist(s, item, limit).len() == if s.len() < limit {
            s.len() + 1
        } else {
            limit
        },
        forall|i: int|
            0 <= i < enlist(s, item, limit).len() ==> #[trigger] enlist(s, item, limit)[i] == item
                || s.contains(enlist(s, item, limit)[i]),
{
    lemma_entry_point_bounds(s, item.value);
    lemma_entry_point_splits(s, item.value);
    let p = entry_point(s, item.value);
    let grown = s.insert(p, item);
    assert forall|i: int, j: int| 0 <= i < j < grown.len() implies grown[i].value
        >= grown[j].value by {
        if j < p {
            assert(grown[i] == s[i] && grown[j] == s[j]);
        } else if j == p {
            assert(grown[i] == s[i]);
        } else if i < p {
            assert(grown[i] == s[i] && grown[j] == s[j - 1]);
        } else if i == p {
            assert(grown[j] == s[j - 1]);
        } else {
            assert(grown[i] == s[i - 1] && grown[j] == s[j - 1]);
        }
    }
    assert forall|i: int| 0 <= i < grown.len() implies #[trigger] grown[i] == item || s.contains(
        grown[i],
    ) by {
        if i < p {
            assert(grown[i] == s[i]);
        } else if i > p {
            assert(grown[i] == s[i - 1]);
        }
    }
    let r = enlist(s, item, limit);
    assert forall|i: int| 0 <= i < r.len() implies #[trigger] r[i] == item || s.contains(r[i]) by {
        assert(r[i] == grown[i]);
    }
}

/// A ranking is descending, holds the smaller of the limit and the number of
/// candidates, and holds candidates of the list only.
pub proof fn lemma_ranked(items: Seq<Candidate>, limit: nat)
    ensures
        descending(ranked(items, limit)),
        ranked(items, limit).len() == if items.len() < limit {
            items.len()
        } else {
            limit
        },
        forall|i: int|
            0 <= i < ranked(items, limit).len() ==> items.contains(
                #[trigger] ranked(items, limit)[i],
            ),
    decreases items.len(),
{
    if items.len() > 0 {
        let before = ranked(items.drop_last(), limit);
        lemma_ranked(items.drop_last(), limit);
        lemma_enlist(before, items.last(), limit);
        let r = ranked(items, limit);
        assert forall|i: int| 0 <= i < r.len() implies items.contains(#[trigger] r[i]) by {
            if r[i] == items.last() {
                assert(items[items.len() - 1] == r[i]);
            } else {
                assert(before.contains(r[i]));
                let w = choose|w: int| 0 <= w < before.len() && before[w] == r[i];
                assert(items.drop_last().contains(before[w]));
                let v = choose|v: int|
                    0 <= v < items.drop_last().len() && items.drop_last()[v] == before[w];
                assert(items[v] == r[i]);
            }
        }
    }
}

/// The head of a ranking with room for at least one entry is the first of
/// the candidates with the highest value.
pub proof fn lemma_ranked_head(items: Seq<Candidate>, limit: nat)
    requires
        items.len() > 0,
        limit >= 1,
    ensures
        ranked(items, limit).len() >= 1,
        forall|j: int| 0 <= j < items.len() ==> ranked(items, limit)[0].value >= (
        #[trigger] items[j]).value,
        exists|w: int|
            0 <= w < items.len() && items[w] == ranked(items, limit)[0] && forall|j: int|
                0 <= j < w ==> (#[trigger] items[j]).value < items[w].value,
    decreases items.len(),
{
    let before = ranked(items.drop_last(), limit);
    let last = items.last();
    lemma_ranked(items.drop_last(), limit);
    lemma_ranked(items, limit);
    lemma_entry_point_bounds(before, last.value);
    lemma_entry_point_splits(before, last.value);
    let p = entry_point(before, last.value);
    let grown = before.insert(p, last);
    let r = ranked(items, limit);
    assert(r[0] == grown[0]);
    if items.len() == 1 {
        assert(before.len() == 0);
        assert(r[0] == last);
        assert(items[0] == r[0]);
    } else {
        lemma_ranked_head(items.drop_last(), limit);
        let w0 = choose|w: int|
            0 <= w < items.drop_last().len() && items.drop_last()[w] == before[0] && forall|j: int|
                0 <= j < w ==> (#[trigger] items.drop_last()[j]).value < items.drop_last()[w].value;
        assert forall|j: int| 0 <= j < items.len() - 1 implies before[0].value >= (
        #[trigger] items[j]).value by {
            assert(items.drop_last()[j] == items[j]);
        }
        if p == 0 {
            assert(r[0] == last);
            assert(before[0].value < last.value);
            let w = items.len() - 1;
            assert(items[w] == r[0]);
            assert forall|j: int| 0 <= j < w implies (#[trigger] items[j]).value
                < items[w].value by {}
        } else {
            assert(r[0] == before[0]);
            assert(before[0].value >= last.value);
            assert(items[w0] == r[0]);
            assert forall|j: int| 0 <= j < w0 implies (#[trigger] items[j]).value
                < items[w0].value by {
                assert(items.drop_last()[j] == items[j]);
            }
        }
    }
}

/// Whether a candidate of value `a` that came as the `i`-th ranks before one
/// of value `b` that came as the `j`-th: it has the higher value, or the
/// same value and came earlier.
pub open spec fn ranks_before(a: u32, i: int, b: u32, j: int) -> bool {
    a > b || (a == b && i < j)
}

/// For each entry of a ranking, the index in `items` of the candidate it
/// holds.
pub open spec fn placed(items: Seq<Candidate>, limit: nat) -> Seq<int>
    decreases items.len(),
{
    if items.len() == 0 {
        Seq::empty()
    } else {
        let grown = placed(items.drop_last(), limit).insert(
            entry_point(ranked(items.drop_last(), limit), items.last().value),
            items.len() - 1,
        );
        if grown.len() > limit {
            grown.take(limit as int)
        } else {
            grown
        }
    }
}

/// Whether each entry of `r` is the candidate of `items` at the index that
/// `o` gives for it.
pub open spec fn taken_from(items: Seq<Candidate>, r: Seq<Candidate>, o: Seq<int>) -> bool {
    &&& o.len() == r.len()
    &&& forall|i: int|
        0 <= i < r.len() ==> 0 <= #[trigger] o[i] < items.len() && r[i] == items[o[i]]
}

/// Whether the entries of `r`, which came as `o` tells, stand in the order
/// of their ranks: no index is taken twice, a higher value stands first, and
/// equal values stand in the order in which they came.
pub open spec fn in_rank_order(r: Seq<Candidate>, o: Seq<int>) -> bool {
    forall|i: int, j: int|
        0 <= i < j < r.len() ==> ranks_before(
            r[i].value,
            #[trigger] o[i],
            r[j].value,
            #[trigger] o[j],
        )
}

/// Whether every candidate of `items` that `o` leaves out ranks behind the
/// last entry of `r`, and is left out only because `r` is full.
pub open spec fn others_rank_behind(
    items: Seq<Candidate>,
    r: Seq<Candidate>,
    o: Seq<int>,
    limit: nat,
) -> bool {
    forall|at: int|
        0 <= at < items.len() ==> o.contains(at) || (r.len() == limit && (limit == 0
            || ranks_before(r.last().value, o.last(), (#[trigger] items[at]).value, at)))
}

/// Enlisting the next candidate keeps a ranking taken from the list and in
/// rank order, before anything falls off its end.
proof fn lemma_insert_keeps_order(
    items: Seq<Candidate>,
    r0: Seq<Candidate>,
    o0: Seq<int>,
    p: int,
)
    requires
        items.len() > 0,
        taken_from(items.drop_last(), r0, o0),
        in_rank_order(r0, o0),
        0 <= p <= r0.len(),
        forall|i: int| 0 <= i < p ==> (#[trigger] r0[i]).value >= items.last().value,
        forall|i: int| p <= i < r0.len() ==> (#[trigger] r0[i]).value < items.last().value,
    ensures
        taken_from(items, r0.insert(p, items.last()), o0.insert(p, items.len() - 1)),
        in_rank_order(r0.insert(p, items.last()), o0.insert(p, items.len() - 1)),
{
    let rest = items.drop_last();
    let m = items.len() - 1;
    let x = items.last();
    let gr = r0.insert(p, x);
    let go = o0.insert(p, m);
    assert forall|i: int| 0 <= i < gr.len() implies 0 <= #[trigger] go[i] < items.len() && gr[i]
        == items[go[i]] by {
        if i < p {
            assert(go[i] == o0[i] && gr[i] == r0[i]);
            assert(rest[o0[i]] == items[o0[i]]);
        } else if i > p {
            assert(go[i] == o0[i - 1] && gr[i] == r0[i - 1]);
            assert(rest[o0[i - 1]] == items[o0[i - 1]]);
        }
    }
    assert forall|i: int, j: int| 0 <= i < j < gr.len() implies ranks_before(
        gr[i].value,
        #[trigger] go[i],
        gr[j].value,
        #[trigger] go[j],
    ) by {
        if j < p {
            assert(go[i] == o0[i] && gr[i] == r0[i] && go[j] == o0[j] && gr[j] == r0[j]);
        } else if j == p {
            assert(go[i] == o0[i] && gr[i] == r0[i]);
        } else if i < p {
            assert(go[i] == o0[i] && gr[i] == r0[i] && go[j] == o0[j - 1] && gr[j] == r0[j - 1]);
        } else if i == p {
            assert(go[j] == o0[j - 1] && gr[j] == r0[j - 1]);
        } else {
            assert(go[i] == o0[i - 1] && gr[i] == r0[i - 1] && go[j] == o0[j - 1] && gr[j]
                == r0[j - 1]);
        }
    }
}

/// After the next candidate was enlisted and nothing fell off, no candidate
/// is left out.
proof fn lemma_insert_keeps_all(m: int, o0: Seq<int>, p: int)
    requires
        0 <= m,
        0 <= p <= o0.len(),
        forall|at: int| 0 <= at < m ==> #[trigger] o0.contains(at),
    ensures
        forall|at: int| 0 <= at <= m ==> #[trigger] o0.insert(p, m).contains(at),
{
    let go = o0.insert(p, m);
    assert forall|at: int| 0 <= at <= m implies #[trigger] go.contains(at) by {
        if at == m {
            assert(go[p] == m);
        } else {
            assert(o0.contains(at));
            let w = choose|w: int| 0 <= w < o0.len() && o0[w] == at;
            if w < p {
                assert(go[w] == at);
            } else {
                assert(go[w + 1] == at);
            }
        }
    }
}

/// When an entry falls off the end of a ranking, it and what was left out
/// before rank behind the new last entry.
proof fn lemma_cut_keeps_behind(
    items: Seq<Candidate>,
    r0: Seq<Candidate>,
    o0: Seq<int>,
    p: int,
    limit: nat,
)
    requires
        items.len() > 0,
        limit >= 1,
        r0.len() == limit,
        o0.len() == limit,
        0 <= p <= limit,
        others_rank_behind(items.drop_last(), r0, o0, limit),
        taken_from(items, r0.insert(p, items.last()), o0.insert(p, items.len() - 1)),
        in_rank_order(r0.insert(p, items.last()), o0.insert(p, items.len() - 1)),
    ensures
        others_rank_behind(
            items,
            r0.insert(p, items.last()).take(limit as int),
            o0.insert(p, items.len() - 1).take(limit as int),
            limit,
        ),
{
    let rest = items.drop_last();
    let m = items.len() - 1;
    let gr = r0.insert(p, items.last());
    let go = o0.insert(p, m);
    let r = gr.take(limit as int);
    let o = go.take(limit as int);
    let dropped = go[limit as int];
    assert(r.last() == gr[limit - 1] && o.last() == go[limit - 1]);
    assert(ranks_before(
        gr[limit - 1].value,
        go[limit - 1],
        gr[limit as int].value,
        go[limit as int],
    ));
    assert(gr[limit as int] == items[dropped]);
    assert forall|at: int| 0 <= at < items.len() implies o.contains(at) || (r.len() == limit && (
    limit == 0 || ranks_before(r.last().value, o.last(), (#[trigger] items[at]).value, at))) by {
        if at == m {
            if p < limit {
                assert(o[p] == go[p]);
                assert(o[p] == m);
            } else {
                assert(go[limit as int] == m);
            }
        } else {
            assert(rest[at] == items[at]);
            if o0.contains(at) {
                let w = choose|w: int| 0 <= w < o0.len() && o0[w] == at;
                let g = if w < p {
                    w
                } else {
                    w + 1
                };
                assert(go[g] == at);
                if g < limit {
                    assert(o[g] == at);
                } else {
                    assert(dropped == at);
                }
            } else {
                assert(ranks_before(r0.last().value, o0.last(), rest[at].value, at));
                if p == limit {
                    assert(gr[limit - 1] == r0[limit - 1] && go[limit - 1] == o0[limit - 1]);
                } else {
                    assert(gr[limit as int] == r0[limit - 1] && go[limit as int] == o0[limit
                        - 1]);
                }
            }
        }
    }
}

/// A ranking is the candidates sorted: each entry is a candidate of the
/// list, none is taken twice, a higher value stands first, and equal values
/// stand in the order in which they came. What is not in the ranking ranks
/// behind its last entry, and is left out only when the ranking is full.
pub proof fn lemma_ranked_is_sorted_choice(items: Seq<Candidate>, limit: nat)
    ensures
        ranked(items, limit).len() <= limit,
        taken_from(items, ranked(items, limit), placed(items, limit)),
        in_rank_order(ranked(items, limit), placed(items, limit)),
        others_rank_behind(items, ranked(items, limit), placed(items, limit), limit),
    decreases items.len(),
{
    if items.len() > 0 {
        let rest = items.drop_last();
        let x = items.last();
        lemma_ranked_is_sorted_choice(rest, limit);
        lemma_ranked(rest, limit);
        let r0 = ranked(rest, limit);
        let o0 = placed(rest, limit);
        lemma_entry_point_bounds(r0, x.value);
        lemma_entry_point_splits(r0, x.value);
        let p = entry_point(r0, x.value);
        let gr = r0.insert(p, x);
        let go = o0.insert(p, items.len() - 1);
        lemma_insert_keeps_order(items, r0, o0, p);
        let r = ranked(items, limit);
        let o = placed(items, limit);
        if gr.len() > limit {
            assert(r == gr.take(limit as int) && o == go.take(limit as int));
            assert(taken_from(items, r, o)) by {
                assert forall|i: int| 0 <= i < r.len() implies 0 <= #[trigger] o[i] < items.len()
                    && r[i] == items[o[i]] by {
                    assert(o[i] == go[i] && r[i] == gr[i]);
                }
            }
            assert(in_rank_order(r, o)) by {
                assert forall|i: int, j: int| 0 <= i < j < r.len() implies ranks_before(
                    r[i].value,
                    #[trigger] o[i],
                    r[j].value,
                    #[trigger] o[j],
                ) by {
                    assert(o[i] == go[i] && r[i] == gr[i] && o[j] == go[j] && r[j] == gr[j]);
                }
            }
            if limit >= 1 {
                lemma_cut_keeps_behind(items, r0, o0, p, limit);
            }
        } else {
            assert(r == gr && o == go);
            assert forall|at: int| 0 <= at < items.len() - 1 implies #[trigger] o0.contains(
                at,
            ) by {
                assert(rest[at] == items[at]);
            }
            lemma_insert_keeps_all(items.len() - 1, o0, p);
            assert forall|at: int| 0 <= at < items.len() implies go.contains(at) by {
                assert(o0.insert(p, items.len() - 1).contains(at));
            }
        }
    }
}

/// With room for every candidate a ranking holds them all: each candidate
/// of the list stands in it.
pub proof fn lemma_full_ranking_holds_all(items: Seq<Candidate>, limit: nat)
    requires
        limit >= items.len(),
    ensures
        ranked(items, limit).len() == items.len(),
        forall|at: int| 0 <= at < items.len() ==> placed(items, limit).contains(at),
{
    lemma_ranked(items, limit);
    lemma_ranked_is_sorted_choice(items, limit);
    assert forall|at: int| 0 <= at < items.len() implies placed(items, limit).contains(at) by {
        let r = ranked(items, limit);
        let o = placed(items, limit);
        if !o.contains(at) {
            let left_out = items[at];
            assert(r.len() == limit);
            assert(limit == items.len());
            assert forall|i: int, j: int| 0 <= i < j < o.len() implies #[trigger] o[i]
                != #[trigger] o[j] by {
                assert(ranks_before(r[i].value, o[i], r[j].value, o[j]));
            }
            lemma_distinct_indices_cover(o, items.len() as int, at);
        }
    }
}

/// Distinct indices below `n`, `n` of them, leave no index below `n` out.
proof fn lemma_distinct_indices_cover(o: Seq<int>, n: int, at: int)
    requires
        o.len() == n,
        0 <= at < n,
        forall|i: int| 0 <= i < o.len() ==> 0 <= #[trigger] o[i] < n,
        forall|i: int, j: int| 0 <= i < j < o.len() ==> #[trigger] o[i] != #[trigger] o[j],
    ensures
        o.contains(at),
{
    let s = o.to_set();
    o.unique_seq_to_set();
    let full = Set::new(|k: int| 0 <= k < n);
    vstd::set_lib::lemma_int_range(0, n);
    assert(full =~= vstd::set_lib::set_int_range(0, n));
    assert(s.subset_of(full)) by {
        assert forall|k: int| s.contains(k) implies full.contains(k) by {
            let w = choose|w: int| 0 <= w < o.len() && o[w] == k;
        }
    }
    vstd::set_lib::lemma_subset_equality(s, full);
    assert(s.contains(at));
}

/// Enlists one candidate to a descending ranking of at most `limit` entries.
fn enlist_into(ranking: &mut Vec<Candidate>, item: Candidate, limit: usize)
    requires
        descending(old(ranking)@),
        old(ranking)@.len() <= limit,
    ensures
        final(ranking)@ == enlist(old(ranking)@, item, limit as nat),
        descending(final(ranking)@),
        final(ranking)@.len() <= limit,
{
    proof {
        lemma_enlist(ranking@, item, limit as nat);
        lemma_entry_point_bounds(ranking@, item.value);
    }
    let len: usize = ranking.len();
    if len == limit && (len == 0 || ranking[len - 1].value >= item.value) {
        proof {
            assert forall|i: int| 0 <= i < len implies (#[trigger] ranking@[i]).value
                >= item.value by {
                if i < len - 1 {
                    assert(ranking@[i].value >= ranking@[len - 1].value);
                }
            }
            lemma_entry_point_is(ranking@, item.value, len as int);
            assert(ranking@.insert(len as int, item).take(limit as int) == ranking@);
        }
        return ;
    }
    let mut p: usize = len;
    while p > 0 && ranking[p - 1].value < item.value
        invariant
            p <= len,
            len == ranking@.len(),
            forall|i: int| p <= i < len ==> (#[trigger] ranking@[i]).value < item.value,
        decreases p,
    {
        p -= 1;
    }
    proof {
        assert forall|i: int| 0 <= i < p implies (#[trigger] ranking@[i]).value >= item.value by {
            if i < p - 1 {
                assert(ranking@[i].value >= ranking@[p - 1].value);
            }
        }
        lemma_entry_point_is(ranking@, item.value, p as int);
    }
    ranking.insert(p, item);
    if ranking.len() > limit {
        ranking.truncate(limit);
    }
}

/// Ranks a list of candidates and keeps the best `limit`.
pub fn rank(items: &Vec<Candidate>, limit: usize) -> (ranking: Vec<Candidate>)
    ensures
        ranking@ == ranked(items@, limit as nat),
{
    let mut ranking: Vec<Candidate> = Vec::new();
    let mut i: usize = 0;
    while i < items.len()
        invariant
            i <= items.len(),
            ranking@ == ranked(items@.take(i as int), limit as nat),
            descending(ranking@),
            ranking@.len() <= limit,
        decreases items.len() - i,
    {
        proof {
            assert(items@.take(i + 1).drop_last() == items@.take(i as int));
        }
        enlist_into(&mut ranking, items[i], limit);
        i += 1;
    }
    proof {
        assert(items@.take(items@.len() as int) == items@);
    }
    ranking
}

/// The number of candidates kept for a configured `top_k`: at least one.
pub open spec fn kept_count(top_k: nat) -> nat {
    if top_k < 1 {
        1
    } else {
        top_k
    }
}

/// Chooses the candidates of a score vector: the `top_k` tokens with the
/// highest keys (all of them where there are fewer), highest first, equal
/// keys in the order of their tokens.
pub fn top_candidates(keys: &Vec<u32>, top_k: usize) -> (ranking: Vec<Candidate>)
    requires
        keys@.len() <= i32::MAX,
    ensures
        ranking@ == ranked(candidates_of(keys@), kept_count(top_k as nat)),
{
    let limit: usize = if top_k < 1 {
        1
    } else {
        top_k
    };
    let mut ranking: Vec<Candidate> = Vec::new();
    let mut i: usize = 0;
    while i < keys.len()
        invariant
            i <= keys.len(),
            keys@.len() <= i32::MAX,
            limit == kept_count(top_k as nat),
            ranking@ == ranked(candidates_of(keys@).take(i as int), limit as nat),
            descending(ranking@),
            ranking@.len() <= limit,
        decreases keys.len() - i,
    {
        proof {
            assert(candidates_of(keys@).take(i + 1).drop_last() == candidates_of(keys@).take(
                i as int,
            ));
        }
        enlist_into(&mut ranking, Candidate { token: i as i32, value: keys[i] }, limit);
        i += 1;
    }
    proof {
        assert(candidates_of(keys@).take(keys@.len() as int) == candidates_of(keys@));
    }
    ranking
}

} // verus!
