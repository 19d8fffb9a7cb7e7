//! The sampler: from ranked, weighted candidates to one token, through the
//! top-p cut, the min-p floor and a weighted draw, with a fallback wherever
//! a stage would leave nothing.
//!
//! Scores and weights arrive as the bit patterns of single-precision
//! numbers. A score is ranked by a key that orders the patterns as the
//! numbers are ordered; a weight is counted in whole units of two to the
//! power of -32. Shares of the total weight are compared exactly, in parts
//! per thousand.

use crate::ranking::{
    candidates_of, descending, kept_count, lemma_ranked, rank, ranked, Candidate,
};
use rand::Rng;
use vstd::prelude::*;

verus! {

/// The parameters of sampling, in parts per thousand where they are ratios.
#[derive(PartialEq, Eq, Structural, Clone, Copy, Debug)]
pub struct SamplingConfig {
    /// The temperature by which scores are divided before they are weighed.
    pub temperature_permille: u32,
    /// How many of the highest-scoring tokens are candidates.
    pub top_k: usize,
    /// The share of the total weight that the kept candidates must reach.
    pub top_p_permille: u32,
    /// The share of the highest weight below which a candidate is dropped.
    pub min_p_permille: u32,
}

impl SamplingConfig {
    /// Whether the parameters are in their ranges: a temperature above 0, a
    /// `top_k` of at least 1, and a `top_p` above 0 and at most 1.
    pub open spec fn valid(&self) -> bool {
        &&& self.temperature_permille > 0
        &&& self.top_k >= 1
        &&& 1 <= self.top_p_permille <= 1000
    }

    /// The parameters used by default: temperature 0.8, top-k 40, top-p 0.9
    /// and no min-p floor.
    pub fn standard() -> (config: Self)
        ensures
            config == (SamplingConfig {
                temperature_permille: 800,
                top_k: 40,
                top_p_permille: 900,
                min_p_permille: 0,
            }),
            config.valid(),
    {
        SamplingConfig {
            temperature_permille: 800,
            top_k: 40,
            top_p_permille: 900,
            min_p_permille: 0,
        }
    }

    /// Parameters under which sampling is deterministic: only the
    /// highest-scoring token is a candidate.
    pub fn greedy() -> (config: Self)
        ensures
            config == (SamplingConfig { top_k: 1, ..Self::standard_spec() }),
            config.valid(),
    {
        SamplingConfig {
            temperature_permille: 800,
            top_k: 1,
            top_p_permille: 900,
            min_p_permille: 0,
        }
    }

    /// The value of `standard`.
    pub open spec fn standard_spec() -> Self {
        SamplingConfig {
            temperature_permille: 800,
            top_k: 40,
            top_p_permille: 900,
            min_p_permille: 0,
        }
    }
}

/// Magnitudes above this one belong to bit patterns that are not numbers.
pub const INFINITY_MAGNITUDE: u32 = 0x7f80_0000;

/// The bit that holds the sign of a score.
pub const SIGN_BIT: u32 = 0x8000_0000;

/// The key that ranks a score given as the bit pattern of a single-precision
/// number: patterns that are not numbers get the lowest key, 0; a number
/// with sign bit clear gets its magnitude above the middle of the range, one
/// with sign bit set its magnitude below it, so that both zeros share a key.
pub open spec fn score_key(bits: u32) -> u32 {
    let magnitude = if bits >= SIGN_BIT {
        bits - SIGN_BIT
    } else {
        bits as int
    };
    if magnitude > INFINITY_MAGNITUDE {
        0
    } else if bits >= SIGN_BIT {
        (SIGN_BIT - magnitude) as u32
    } else {
        (SIGN_BIT + magnitude) as u32
    }
}

/// The number that a bit pattern stands for as far as order goes: its
/// magnitude, negated where the sign bit is set.
pub open spec fn signed_magnitude(bits: u32) -> int {
    if bits >= SIGN_BIT {
        -(bits - SIGN_BIT)
    } else {
        bits as int
    }
}

/// Whether a bit pattern stands for a number, infinite ones included.
pub open spec fn is_number(bits: u32) -> bool {
    -(INFINITY_MAGNITUDE as int) <= signed_magnitude(bits) <= INFINITY_MAGNITUDE
}

/// Computes `score_key`.
pub fn key_of_score(bits: u32) -> (key: u32)
    ensures
        key == score_key(bits),
{
    let negative: bool = bits >= SIGN_BIT;
    let magnitude: u32 = if negative {
        bits - SIGN_BIT
    } else {
        bits
    };
    if magnitude > INFINITY_MAGNITUDE {
        0
    } else if negative {
        SIGN_BIT - magnitude
    } else {
        SIGN_BIT + magnitude
    }
}

/// Keys order numbers as their signed magnitudes do, and rank every pattern
/// that is not a number below every number.
pub proof fn lemma_score_key_orders(a: u32, b: u32)
    ensures
        is_number(a) && is_number(b) ==> (score_key(a) <= score_key(b) <==> signed_magnitude(a)
            <= signed_magnitude(b)),
        !is_number(a) ==> score_key(a) == 0,
        is_number(b) ==> score_key(b) > 0,
{
}

/// Two to the power of `n`.
pub open spec fn two_to(n: nat) -> nat
    decreases n,
{
    if n == 0 {
        1
    } else {
        2 * two_to((n - 1) as nat)
    }
}

/// The number of bits of a single-precision number behind its exponent.
pub const FRACTION_SIZE: u32 = 0x80_0000;

/// The exponent field of the number 1, less the 32 binary places that a
/// weight is counted in, less the 23 binary places of the fraction.
pub const UNIT_EXPONENT: u32 = 118;

/// The weight, in units of two to the power of -32, that the bit pattern of
/// a single-precision number stands for.
///
/// A pattern that is not a number, an infinite one, zero, and every pattern
/// with the sign bit set weigh nothing: 0. Any other pattern is a number
/// above zero; it weighs its value in units, rounded down, but 1 at least,
/// and no more than the largest weight there is.
pub open spec fn weight_units(bits: u32) -> u32 {
    if bits == 0 || bits >= INFINITY_MAGNITUDE {
        0
    } else {
        let field = bits / FRACTION_SIZE;
        let fraction = bits % FRACTION_SIZE;
        let exponent = if field == 0 {
            1
        } else {
            field as int
        };
        let mantissa = if field == 0 {
            fraction as int
        } else {
            FRACTION_SIZE + fraction
        };
        let scaled = if exponent >= UNIT_EXPONENT {
            mantissa * two_to((exponent - UNIT_EXPONENT) as nat)
        } else {
            mantissa / (two_to((UNIT_EXPONENT - exponent) as nat) as int)
        };
        if scaled < 1 {
            1
        } else if scaled > u32::MAX {
            u32::MAX
        } else {
            scaled as u32
        }
    }
}

/// Powers of two grow with the exponent, and are never zero.
pub proof fn lemma_two_to_grows(a: nat, b: nat)
    requires
        a <= b,
    ensures
        1 <= two_to(a) <= two_to(b),
    decreases b,
{
    if b > 0 {
        if a < b {
            lemma_two_to_grows(a, (b - 1) as nat);
        } else {
            lemma_two_to_grows((a - 1) as nat, (b - 1) as nat);
        }
    }
}

/// Computes a power of two up to the 31st.
fn power_of_two(n: u32) -> (p: u32)
    requires
        n <= 31,
    ensures
        p == two_to(n as nat),
{
    let mut p: u32 = 1;
    let mut i: u32 = 0;
    proof {
        lemma_two_to_grows(0, 31);
    }
    while i < n
        invariant
            i <= n <= 31,
            p == two_to(i as nat),
            p <= two_to(31),
        decreases n - i,
    {
        proof {
            lemma_two_to_grows((i + 1) as nat, 31);
            reveal_with_fuel(two_to, 32);
            assert(two_to(31) == 0x8000_0000);
        }
        p = p * 2;
        i += 1;
    }
    p
}

/// Computes `weight_units`.
pub fn units_of_weight(bits: u32) -> (units: u32)
    ensures
        units == weight_units(bits),
{
    if bits == 0 || bits >= INFINITY_MAGNITUDE {
        return 0;
    }
    let field: u32 = bits / FRACTION_SIZE;
    let fraction: u32 = bits % FRACTION_SIZE;
    let exponent: u32 = if field == 0 {
        1
    } else {
        field
    };
    let mantissa: u32 = if field == 0 {
        fraction
    } else {
        FRACTION_SIZE + fraction
    };
    proof {
        reveal_with_fuel(two_to, 32);
        assert(two_to(9) == 512);
        assert(two_to(24) == 0x100_0000);
        assert(two_to(31) == 0x8000_0000);
    }
    if exponent >= UNIT_EXPONENT + 9 {
        proof {
            lemma_two_to_grows(9, (exponent - UNIT_EXPONENT) as nat);
            assert(mantissa * two_to((exponent - UNIT_EXPONENT) as nat) >= mantissa * 512)
                by (nonlinear_arith)
                requires
                    two_to((exponent - UNIT_EXPONENT) as nat) >= 512,
                    mantissa >= 0,
            ;
        }
        u32::MAX
    } else if exponent >= UNIT_EXPONENT {
        let power = power_of_two(exponent - UNIT_EXPONENT);
        proof {
            lemma_two_to_grows((exponent - UNIT_EXPONENT) as nat, 8);
            assert(two_to(8) == 256);
            assert(mantissa * power <= 0xff_ffff * 256) by (nonlinear_arith)
                requires
                    0 <= mantissa <= 0xff_ffff,
                    0 <= power <= 256,
            ;
        }
        let scaled: u32 = mantissa * power;
        if scaled < 1 {
            1
        } else {
            scaled
        }
    } else if UNIT_EXPONENT - exponent >= 24 {
        proof {
            lemma_two_to_grows(24, (UNIT_EXPONENT - exponent) as nat);
            let d = two_to((UNIT_EXPONENT - exponent) as nat) as int;
            assert(mantissa as int / d == 0) by (nonlinear_arith)
                requires
                    0 <= mantissa < 0x100_0000,
                    d >= 0x100_0000,
            ;
        }
        1
    } else {
        let power = power_of_two(UNIT_EXPONENT - exponent);
        proof {
            lemma_two_to_grows(0, (UNIT_EXPONENT - exponent) as nat);
        }
        let scaled: u32 = mantissa / power;
        if scaled < 1 {
            1
        } else {
            scaled
        }
    }
}

/// Gives each candidate of a ranking the weight that a bit pattern stands
/// for: the `i`-th pattern is that of the `i`-th candidate.
pub open spec fn weighed(ranking: Seq<Candidate>, patterns: Seq<u32>) -> Seq<Candidate> {
    Seq::new(
        ranking.len(),
        |i: int|
            Candidate {
                token: ranking[i].token,
                value: if i < patterns.len() {
                    weight_units(patterns[i])
                } else {
                    0
                },
            },
    )
}

/// Gives each candidate of a ranking its weight. A candidate without a
/// pattern weighs nothing.
pub fn weigh_candidates(ranking: &Vec<Candidate>, patterns: &Vec<u32>) -> (weighted: Vec<
    Candidate,
>)
    ensures
        weighted@ == weighed(ranking@, patterns@),
{
    let mut weighted: Vec<Candidate> = Vec::with_capacity(ranking.len());
    let mut i: usize = 0;
    while i < ranking.len()
        invariant
            i <= ranking.len(),
            weighted@ == weighed(ranking@.take(i as int), patterns@),
        decreases ranking.len() - i,
    {
        let value = if i < patterns.len() {
            units_of_weight(patterns[i])
        } else {
            0
        };
        weighted.push(Candidate { token: ranking[i].token, value });
        i += 1;
        assert(weighted@ == weighed(ranking@.take(i as int), patterns@));
    }
    assert(ranking@.take(ranking@.len() as int) == ranking@);
    weighted
}

/// The sum of the weights.
pub open spec fn total_weight(s: Seq<Candidate>) -> nat
    decreases s.len(),
{
    if s.len() == 0 {
        0
    } else {
        total_weight(s.drop_last()) + s.last().value as nat
    }
}

/// The highest of the weights, 0 where there is none.
pub open spec fn max_value(s: Seq<Candidate>) -> nat
    decreases s.len(),
{
    if s.len() == 0 {
        0
    } else if s.last().value > max_value(s.drop_last()) {
        s.last().value as nat
    } else {
        max_value(s.drop_last())
    }
}

/// The candidates whose weight, in thousandths, is at least `bar`, in their
/// order.
pub open spec fn above(s: Seq<Candidate>, bar: nat) -> Seq<Candidate>
    decreases s.len(),
{
    if s.len() == 0 {
        Seq::empty()
    } else if s.last().value * 1000 >= bar {
        above(s.drop_last(), bar).push(s.last())
    } else {
        above(s.drop_last(), bar)
    }
}

/// The candidates with a weight above zero, in their order.
pub open spec fn positive(s: Seq<Candidate>) -> Seq<Candidate> {
    above(s, 1)
}

/// Whether the first `n` candidates together reach the share `top_p` of the
/// total weight.
pub open spec fn reaches(s: Seq<Candidate>, n: int, top_p: nat) -> bool {
    total_weight(s.take(n)) * 1000 >= top_p * total_weight(s)
}

/// The least count from `n` on whose candidates reach the share, or all.
pub open spec fn cut_from(s: Seq<Candidate>, n: nat, top_p: nat) -> nat
    decreases s.len() - n,
{
    if n >= s.len() {
        s.len()
    } else if reaches(s, n as int, top_p) {
        n
    } else {
        cut_from(s, n + 1, top_p)
    }
}

/// How many candidates the top-p cut keeps: the fewest, but at least one,
/// whose weights together reach the share `top_p` of the total: the
/// candidate with which the share is reached is kept. A share of 1 or more
/// keeps all.
pub open spec fn nucleus_len(s: Seq<Candidate>, top_p: nat) -> nat {
    if s.len() == 0 {
        0
    } else if top_p >= 1000 {
        s.len()
    } else {
        cut_from(s, 1, top_p)
    }
}

/// The candidates one of which is drawn: those with a weight above zero,
/// ranked by weight, cut at `top_p`, and, where `min_p` is set, without
/// those whose weight is below the share `min_p` of the highest weight kept.
/// If the floor leaves none, the candidate of the highest weight stands
/// alone.
pub open spec fn nucleus(weighted: Seq<Candidate>, top_p: nat, min_p: nat) -> Seq<Candidate> {
    let sorted = ranked(positive(weighted), positive(weighted).len());
    let kept = sorted.take(nucleus_len(sorted, top_p) as int);
    if min_p == 0 || kept.len() == 0 {
        kept
    } else {
        let floored = above(kept, max_value(kept) * min_p);
        if floored.len() == 0 {
            seq![sorted[0]]
        } else {
            floored
        }
    }
}

/// The index from `i` on at which a walk along the candidates ends: the
/// first at which the weights walked reach the draw, or the last index.
pub open spec fn walk_from(s: Seq<Candidate>, i: nat, draw: nat) -> int
    decreases s.len() - i,
{
    if i + 1 >= s.len() {
        s.len() - 1
    } else if total_weight(s.take(i as int + 1)) >= draw {
        i as int
    } else {
        walk_from(s, i + 1, draw)
    }
}

/// The token drawn from the candidates by `draw`: the draw less the weights
/// walked so far is the running value, and the token at which it drops to 0
/// or below is drawn; if it never does, the last token. Without candidates
/// the end-of-sequence token.
pub open spec fn picked(s: Seq<Candidate>, draw: nat, eos: i32) -> i32 {
    if s.len() == 0 {
        eos
    } else {
        s[walk_from(s, 0, draw)].token
    }
}

/// The token the sampler returns for ranked, weighted candidates and a draw.
///
/// Where no candidate has a weight above zero, it is the first candidate's
/// token, or the end-of-sequence token where there is no candidate. Where
/// the candidates kept weigh nothing, it is the first of them. Else it is
/// the token drawn.
pub open spec fn chosen(weighted: Seq<Candidate>, config: SamplingConfig, eos: i32, draw: nat)
    -> i32 {
    let kept = nucleus(
        weighted,
        config.top_p_permille as nat,
        config.min_p_permille as nat,
    );
    if kept.len() == 0 {
        if weighted.len() > 0 {
            weighted[0].token
        } else {
            eos
        }
    } else if total_weight(kept) == 0 {
        kept[0].token
    } else {
        picked(kept, draw, eos)
    }
}

/// The number of values a draw can take for these candidates: the total
/// weight of those kept, and 1 where that is zero.
pub open spec fn draw_bound(weighted: Seq<Candidate>, config: SamplingConfig) -> nat {
    let total = total_weight(
        nucleus(weighted, config.top_p_permille as nat, config.min_p_permille as nat),
    );
    if total == 0 {
        1
    } else {
        total
    }
}

/// The weights of `n` candidates sum to at most `n` times the highest
/// weight there can be.
pub proof fn lemma_total_weight_bound(s: Seq<Candidate>)
    ensures
        total_weight(s) <= s.len() * 0xffff_ffff,
    decreases s.len(),
{
    if s.len() > 0 {
        lemma_total_weight_bound(s.drop_last());
    }
}

/// The weights of a prefix sum to no more than the weights of the whole.
pub proof fn lemma_total_weight_prefix(s: Seq<Candidate>, n: int)
    requires
        0 <= n <= s.len(),
    ensures
        total_weight(s.take(n)) <= total_weight(s),
    decreases s.len(),
{
    if n < s.len() {
        assert(s.drop_last().take(n) == s.take(n));
        lemma_total_weight_prefix(s.drop_last(), n);
    } else {
        assert(s.take(n) == s);
    }
}

/// What passes a bar was there before, and passes the bar.
pub proof fn lemma_above_members(s: Seq<Candidate>, bar: nat)
    ensures
        above(s, bar).len() <= s.len(),
        forall|i: int|
            0 <= i < above(s, bar).len() ==> s.contains(#[trigger] above(s, bar)[i]) && above(
                s,
                bar,
            )[i].value * 1000 >= bar,
    decreases s.len(),
{
    if s.len() > 0 {
        lemma_above_members(s.drop_last(), bar);
        let r = above(s, bar);
        let before = above(s.drop_last(), bar);
        assert forall|i: int| 0 <= i < r.len() implies s.contains(#[trigger] r[i]) && r[i].value
            * 1000 >= bar by {
            if i < before.len() {
                assert(r[i] == before[i]);
                let w = choose|w: int| 0 <= w < s.drop_last().len() && s.drop_last()[w] == before[i];
                assert(s[w] == r[i]);
            } else {
                assert(s[s.len() - 1] == r[i]);
            }
        }
    }
}

/// The count that the top-p cut keeps lies between 1 and the number of
/// candidates, and is the least that reaches the share: no shorter prefix
/// reaches it, and the prefix kept does unless all candidates are kept.
pub proof fn lemma_cut_is_least(s: Seq<Candidate>, n: nat, top_p: nat)
    requires
        1 <= n <= s.len(),
    ensures
        n <= cut_from(s, n, top_p) <= s.len(),
        cut_from(s, n, top_p) < s.len() ==> reaches(s, cut_from(s, n, top_p) as int, top_p),
        forall|m: int| n <= m < cut_from(s, n, top_p) ==> !reaches(s, m, top_p),
    decreases s.len() - n,
{
    if n < s.len() && !reaches(s, n as int, top_p) {
        lemma_cut_is_least(s, n + 1, top_p);
    }
}

/// The candidates drawn from are candidates that were handed in, with a
/// weight above zero.
pub proof fn lemma_nucleus_members(weighted: Seq<Candidate>, top_p: nat, min_p: nat)
    ensures
        nucleus(weighted, top_p, min_p).len() == 0 <==> positive(weighted).len() == 0,
        forall|i: int|
            0 <= i < nucleus(weighted, top_p, min_p).len() ==> weighted.contains(
                #[trigger] nucleus(weighted, top_p, min_p)[i],
            ) && nucleus(weighted, top_p, min_p)[i].value > 0,
{
    let pos = positive(weighted);
    let sorted = ranked(pos, pos.len());
    lemma_above_members(weighted, 1);
    lemma_ranked(pos, pos.len());
    let n = nucleus_len(sorted, top_p);
    if sorted.len() > 0 && top_p < 1000 {
        lemma_cut_is_least(sorted, 1, top_p);
    }
    let kept = sorted.take(n as int);
    assert forall|i: int| 0 <= i < sorted.len() implies weighted.contains(#[trigger] sorted[i])
        && sorted[i].value > 0 by {
        assert(pos.contains(sorted[i]));
        let w = choose|w: int| 0 <= w < pos.len() && pos[w] == sorted[i];
        assert(weighted.contains(pos[w]));
    }
    let result = nucleus(weighted, top_p, min_p);
    if min_p == 0 || kept.len() == 0 {
        assert forall|i: int| 0 <= i < result.len() implies weighted.contains(#[trigger] result[i])
            && result[i].value > 0 by {
            assert(result[i] == sorted[i]);
        }
    } else {
        let floored = above(kept, max_value(kept) * min_p);
        lemma_above_members(kept, max_value(kept) * min_p);
        if floored.len() == 0 {
            assert(result[0] == sorted[0]);
        } else {
            assert forall|i: int| 0 <= i < result.len() implies weighted.contains(
                #[trigger] result[i],
            ) && result[i].value > 0 by {
                assert(kept.contains(floored[i]));
                let w = choose|w: int| 0 <= w < kept.len() && kept[w] == floored[i];
                assert(kept[w] == sorted[w]);
            }
        }
    }
}

/// A walk ends at an index of the candidates.
pub proof fn lemma_walk_bounds(s: Seq<Candidate>, i: nat, draw: nat)
    requires
        i < s.len(),
    ensures
        i <= walk_from(s, i, draw) < s.len(),
    decreases s.len() - i,
{
    if i + 1 < s.len() && total_weight(s.take(i as int + 1)) < draw {
        lemma_walk_bounds(s, i + 1, draw);
    }
}

/// The sampler is total: whatever the weights and the draw, it returns the
/// token of one of the candidates, and the end-of-sequence token only where
/// it is handed none.
pub proof fn lemma_chosen_is_candidate(
    weighted: Seq<Candidate>,
    config: SamplingConfig,
    eos: i32,
    draw: nat,
)
    ensures
        weighted.len() == 0 ==> chosen(weighted, config, eos, draw) == eos,
        weighted.len() > 0 ==> exists|i: int|
            0 <= i < weighted.len() && (#[trigger] weighted[i]).token == chosen(
                weighted,
                config,
                eos,
                draw,
            ),
{
    let top_p = config.top_p_permille as nat;
    let min_p = config.min_p_permille as nat;
    let kept = nucleus(weighted, top_p, min_p);
    lemma_nucleus_members(weighted, top_p, min_p);
    lemma_above_members(weighted, 1);
    if weighted.len() > 0 {
        if kept.len() == 0 {
            assert(weighted[0].token == chosen(weighted, config, eos, draw));
        } else {
            let at = if total_weight(kept) == 0 {
                0
            } else {
                walk_from(kept, 0, draw)
            };
            lemma_walk_bounds(kept, 0, draw);
            assert(weighted.contains(kept[at]));
            let w = choose|w: int| 0 <= w < weighted.len() && weighted[w] == kept[at];
            assert(weighted[w].token == chosen(weighted, config, eos, draw));
        }
    }
}

/// For a score vector of at least one entry the sampler returns a token of
/// the vocabulary: whatever the keys, whatever weights the candidates are
/// given, and whatever the draw, the token is an index of the vector.
pub proof fn lemma_sampled_token_in_vocabulary(
    keys: Seq<u32>,
    weighted: Seq<Candidate>,
    config: SamplingConfig,
    eos: i32,
    draw: nat,
)
    requires
        1 <= keys.len() <= i32::MAX,
        weighted.len() == ranked(candidates_of(keys), kept_count(config.top_k as nat)).len(),
        forall|i: int|
            0 <= i < weighted.len() ==> (#[trigger] weighted[i]).token == ranked(
                candidates_of(keys),
                kept_count(config.top_k as nat),
            )[i].token,
    ensures
        0 <= chosen(weighted, config, eos, draw) < keys.len(),
{
    let ranking = ranked(candidates_of(keys), kept_count(config.top_k as nat));
    lemma_ranked(candidates_of(keys), kept_count(config.top_k as nat));
    lemma_chosen_is_candidate(weighted, config, eos, draw);
    assert(weighted.len() >= 1);
    let i = choose|i: int|
        0 <= i < weighted.len() && (#[trigger] weighted[i]).token == chosen(
            weighted,
            config,
            eos,
            draw,
        );
    assert(candidates_of(keys).contains(ranking[i]));
    let w = choose|w: int| 0 <= w < keys.len() && candidates_of(keys)[w] == ranking[i];
    assert(ranking[i].token == w);
}

/// With a single candidate the sampler is deterministic: it returns that
/// candidate's token, whatever its weight and whatever the draw.
pub proof fn lemma_single_candidate_is_chosen(
    weighted: Seq<Candidate>,
    config: SamplingConfig,
    eos: i32,
    draw: nat,
)
    requires
        weighted.len() == 1,
    ensures
        chosen(weighted, config, eos, draw) == weighted[0].token,
{
    lemma_chosen_is_candidate(weighted, config, eos, draw);
}

/// Sums the weights.
pub fn sum_weights(s: &Vec<Candidate>) -> (total: u128)
    ensures
        total == total_weight(s@),
{
    let mut total: u128 = 0;
    let mut i: usize = 0;
    while i < s.len()
        invariant
            i <= s.len(),
            total == total_weight(s@.take(i as int)),
            total <= i * 0xffff_ffff,
        decreases s.len() - i,
    {
        proof {
            assert(s@.take(i + 1).drop_last() == s@.take(i as int));
        }
        total = total + s[i].value as u128;
        i += 1;
    }
    proof {
        assert(s@.take(s@.len() as int) == s@);
    }
    total
}

/// Finds the highest weight.
pub fn highest_value(s: &Vec<Candidate>) -> (highest: u32)
    ensures
        highest == max_value(s@),
{
    let mut highest: u32 = 0;
    let mut i: usize = 0;
    while i < s.len()
        invariant
            i <= s.len(),
            highest == max_value(s@.take(i as int)),
        decreases s.len() - i,
    {
        proof {
            assert(s@.take(i + 1).drop_last() == s@.take(i as int));
        }
        if s[i].value > highest {
            highest = s[i].value;
        }
        i += 1;
    }
    proof {
        assert(s@.take(s@.len() as int) == s@);
    }
    highest
}

/// Keeps the candidates whose weight, in thousandths, is at least `bar`.
pub fn keep_above(s: &Vec<Candidate>, bar: u128) -> (kept: Vec<Candidate>)
    ensures
        kept@ == above(s@, bar as nat),
{
    let mut kept: Vec<Candidate> = Vec::new();
    let mut i: usize = 0;
    while i < s.len()
        invariant
            i <= s.len(),
            kept@ == above(s@.take(i as int), bar as nat),
        decreases s.len() - i,
    {
        proof {
            assert(s@.take(i + 1).drop_last() == s@.take(i as int));
        }
        let candidate = s[i];
        if candidate.value as u128 * 1000 >= bar {
            kept.push(candidate);
        }
        i += 1;
    }
    proof {
        assert(s@.take(s@.len() as int) == s@);
    }
    kept
}

/// Counts the candidates that the top-p cut keeps.
pub fn nucleus_cut(s: &Vec<Candidate>, top_p_permille: u32) -> (count: usize)
    ensures
        count == nucleus_len(s@, top_p_permille as nat),
        count <= s@.len(),
{
    if s.len() == 0 {
        return 0;
    }
    if top_p_permille >= 1000 {
        return s.len();
    }
    let total: u128 = sum_weights(s);
    let mut count: usize = 1;
    let mut walked: u128 = s[0].value as u128;
    proof {
        assert(s@.take(1).drop_last() == s@.take(0));
        assert(total_weight(s@.take(0)) == 0);
        assert(s@.take(1).last() == s@[0]);
        lemma_total_weight_bound(s@);
        lemma_total_weight_prefix(s@, 1);
        assert(top_p_permille as u128 * total <= 1000 * total) by (nonlinear_arith)
            requires
                top_p_permille < 1000,
        ;
    }
    while count < s.len() && walked * 1000 < top_p_permille as u128 * total
        invariant
            top_p_permille as u128 * total <= 1000 * total,
            1 <= count <= s.len(),
            top_p_permille < 1000,
            total == total_weight(s@),
            total <= s@.len() * 0xffff_ffff,
            walked == total_weight(s@.take(count as int)),
            walked <= total,
            cut_from(s@, 1, top_p_permille as nat) == cut_from(
                s@,
                count as nat,
                top_p_permille as nat,
            ),
        decreases s.len() - count,
    {
        proof {
            assert(s@.take(count + 1).drop_last() == s@.take(count as int));
            lemma_total_weight_prefix(s@, count + 1);
        }
        walked = walked + s[count].value as u128;
        count += 1;
    }
    count
}

/// Narrows ranked, weighted candidates down to those one of which is drawn.
pub fn nucleus_of(weighted: &Vec<Candidate>, top_p_permille: u32, min_p_permille: u32) -> (kept:
    Vec<Candidate>)
    ensures
        kept@ == nucleus(weighted@, top_p_permille as nat, min_p_permille as nat),
{
    let usable = keep_above(weighted, 1);
    let mut sorted = rank(&usable, usable.len());
    proof {
        lemma_ranked(usable@, usable@.len());
    }
    if sorted.len() == 0 {
        return sorted;
    }
    let first = sorted[0];
    let count = nucleus_cut(&sorted, top_p_permille);
    proof {
        if top_p_permille < 1000 {
            lemma_cut_is_least(sorted@, 1, top_p_permille as nat);
        }
    }
    sorted.truncate(count);
    if min_p_permille == 0 {
        return sorted;
    }
    let highest = highest_value(&sorted);
    proof {
        assert(highest as u128 * min_p_permille as u128 <= 0xffff_ffff * 0xffff_ffff)
            by (nonlinear_arith)
            requires
                highest <= 0xffff_ffff,
                min_p_permille <= 0xffff_ffff,
        ;
    }
    let floored = keep_above(&sorted, highest as u128 * min_p_permille as u128);
    if floored.len() == 0 {
        let mut alone: Vec<Candidate> = Vec::with_capacity(1);
        alone.push(first);
        assert(alone@ == seq![first]);
        alone
    } else {
        floored
    }
}

/// Walks the candidates with a draw and returns the token drawn.
pub fn pick(s: &Vec<Candidate>, draw: u128, eos: i32) -> (token: i32)
    ensures
        token == picked(s@, draw as nat, eos),
{
    if s.len() == 0 {
        return eos;
    }
    let mut i: usize = 0;
    let mut walked: u128 = 0;
    proof {
        lemma_total_weight_bound(s@);
    }
    while i + 1 < s.len()
        invariant
            i < s.len(),
            walked == total_weight(s@.take(i as int)),
            walk_from(s@, 0, draw as nat) == walk_from(s@, i as nat, draw as nat),
            total_weight(s@) <= s@.len() * 0xffff_ffff,
        decreases s.len() - i,
    {
        proof {
            assert(s@.take(i + 1).drop_last() == s@.take(i as int));
            lemma_total_weight_prefix(s@, i + 1);
        }
        walked = walked + s[i].value as u128;
        if walked >= draw {
            return s[i].token;
        }
        i += 1;
    }
    s[i].token
}

/// Settles on a token once the candidates one of which is drawn are known.
fn settle(weighted: &Vec<Candidate>, kept: &Vec<Candidate>, total: u128, eos: i32, draw: u128) -> (token:
    i32)
    requires
        total == total_weight(kept@),
    ensures
        token == (if kept@.len() == 0 {
            if weighted@.len() > 0 {
                weighted@[0].token
            } else {
                eos
            }
        } else if total_weight(kept@) == 0 {
            kept@[0].token
        } else {
            picked(kept@, draw as nat, eos)
        }),
{
    if kept.len() == 0 {
        if weighted.len() > 0 {
            weighted[0].token
        } else {
            eos
        }
    } else if total == 0 {
        kept[0].token
    } else {
        pick(kept, draw, eos)
    }
}

/// Chooses a token from ranked, weighted candidates with a draw that the
/// caller supplies.
pub fn select_token(weighted: &Vec<Candidate>, config: &SamplingConfig, eos: i32, draw: u128) -> (token:
    i32)
    ensures
        token == chosen(weighted@, *config, eos, draw as nat),
{
    let kept = nucleus_of(weighted, config.top_p_permille, config.min_p_permille);
    let total = sum_weights(&kept);
    settle(weighted, &kept, total, eos, draw)
}

/// `Rng::random_range` of rand, on the generator that `rand::rng` hands
/// out, over the range from 0 up to but without `bound`: the value lies in
/// that range. Which value it is is left open.
#[verifier::external_body]
fn uniform_below(bound: u128) -> (draw: u128)
    requires
        bound > 0,
    ensures
        draw < bound,
{
    rand::rng().random_range(0..bound)
}

/// Chooses a token from ranked, weighted candidates with a random draw
/// below the total weight of the candidates kept.
pub fn sample_token(weighted: &Vec<Candidate>, config: &SamplingConfig, eos: i32) -> (token: i32)
    ensures
        exists|draw: nat|
            draw < draw_bound(weighted@, *config) && token == #[trigger] chosen(
                weighted@,
                *config,
                eos,
                draw,
            ),
{
    let kept = nucleus_of(weighted, config.top_p_permille, config.min_p_permille);
    let total = sum_weights(&kept);
    let draw: u128 = if total == 0 {
        0
    } else {
        uniform_below(total)
    };
    let token = settle(weighted, &kept, total, eos, draw);
    assert(token == chosen(weighted@, *config, eos, draw as nat));
    token
}

/// The top-p cut is inclusive: below a share of 1 it keeps the fewest
/// candidates, at least one, whose weights reach the share. No shorter
/// beginning of the ranking reaches it, and what is kept does, unless all
/// candidates are kept.
pub proof fn lemma_top_p_cut_is_inclusive(s: Seq<Candidate>, top_p: nat)
    requires
        s.len() >= 1,
        top_p < 1000,
    ensures
        1 <= nucleus_len(s, top_p) <= s.len(),
        nucleus_len(s, top_p) < s.len() ==> reaches(s, nucleus_len(s, top_p) as int, top_p),
        forall|m: int| 1 <= m < nucleus_len(s, top_p) ==> !reaches(s, m, top_p),
{
    lemma_cut_is_least(s, 1, top_p);
}

/// The highest weight of a descending ranking is that of its first entry.
pub proof fn lemma_max_value_is_first(s: Seq<Candidate>)
    requires
        s.len() > 0,
        descending(s),
    ensures
        max_value(s) == s[0].value,
    decreases s.len(),
{
    if s.len() > 1 {
        let rest = s.drop_last();
        assert(descending(rest)) by {
            assert forall|i: int, j: int| 0 <= i < j < rest.len() implies rest[i].value
                >= rest[j].value by {
                assert(rest[i] == s[i] && rest[j] == s[j]);
            }
        }
        lemma_max_value_is_first(rest);
        assert(rest[0] == s[0]);
        assert(s[0].value >= s[s.len() - 1].value);
    } else {
        assert(max_value(s.drop_last()) == 0);
    }
}

/// A first entry that passes a bar is the first entry of what passes.
pub proof fn lemma_above_keeps_first(s: Seq<Candidate>, bar: nat)
    requires
        s.len() > 0,
        s[0].value * 1000 >= bar,
    ensures
        above(s, bar).len() > 0,
        above(s, bar)[0] == s[0],
    decreases s.len(),
{
    if s.len() > 1 {
        let rest = s.drop_last();
        assert(rest[0] == s[0]);
        lemma_above_keeps_first(rest, bar);
    } else {
        assert(above(s.drop_last(), bar).len() == 0);
    }
}

/// The candidate of the highest weight is never lost: whatever the cut and
/// the floor, the candidates one of which is drawn begin with the first of
/// the ranking by weight.
pub proof fn lemma_nucleus_begins_with_heaviest(weighted: Seq<Candidate>, top_p: nat, min_p: nat)
    requires
        positive(weighted).len() > 0,
    ensures
        nucleus(weighted, top_p, min_p).len() > 0,
        nucleus(weighted, top_p, min_p)[0] == ranked(
            positive(weighted),
            positive(weighted).len(),
        )[0],
{
    let pos = positive(weighted);
    let sorted = ranked(pos, pos.len());
    lemma_ranked(pos, pos.len());
    let n = nucleus_len(sorted, top_p);
    if top_p < 1000 {
        lemma_cut_is_least(sorted, 1, top_p);
    }
    let kept = sorted.take(n as int);
    assert(kept[0] == sorted[0]);
    if min_p > 0 {
        let bar = max_value(kept) * min_p;
        let floored = above(kept, bar);
        if floored.len() > 0 {
            assert(descending(kept)) by {
                assert forall|i: int, j: int| 0 <= i < j < kept.len() implies kept[i].value
                    >= kept[j].value by {
                    assert(kept[i] == sorted[i] && kept[j] == sorted[j]);
                }
            }
            lemma_max_value_is_first(kept);
            lemma_above_members(kept, bar);
            let f = floored[0];
            assert(kept.contains(f));
            let w = choose|w: int| 0 <= w < kept.len() && kept[w] == f;
            assert(kept[0].value >= kept[w].value);
            assert(f.value * 1000 >= bar);
            assert(kept[0].value * 1000 >= bar);
            lemma_above_keeps_first(kept, bar);
        }
    }
}

/// The weights of the candidates up to and with the one at index `j`.
pub open spec fn weight_through(s: Seq<Candidate>, j: int) -> nat {
    total_weight(s.take(j + 1))
}

/// A walk ends at the first candidate with which the weights walked reach
/// the draw: before it they fall short of the draw, and with it they reach
/// the draw unless the walk ran up to the last candidate.
pub proof fn lemma_walk_ends_at_first_reach(s: Seq<Candidate>, i: nat, draw: nat)
    requires
        i < s.len(),
    ensures
        forall|j: int| i <= j < walk_from(s, i, draw) ==> #[trigger] weight_through(s, j) < draw,
        walk_from(s, i, draw) < s.len() - 1 ==> weight_through(s, walk_from(s, i, draw)) >= draw,
    decreases s.len() - i,
{
    if i + 1 < s.len() && total_weight(s.take(i as int + 1)) < draw {
        lemma_walk_ends_at_first_reach(s, i + 1, draw);
    }
}

/// A draw within the total weight never runs off the end: the weights up
/// to the candidate drawn reach it.
pub proof fn lemma_draw_within_total_lands(s: Seq<Candidate>, draw: nat)
    requires
        s.len() > 0,
        draw <= total_weight(s),
    ensures
        weight_through(s, walk_from(s, 0, draw)) >= draw,
{
    lemma_walk_ends_at_first_reach(s, 0, draw);
    lemma_walk_bounds(s, 0, draw);
    if walk_from(s, 0, draw) == s.len() - 1 {
        assert(s.take(s.len() as int) == s);
    }
}

} // verus!
