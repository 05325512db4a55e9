//! The consensus engine: one trusted price out of many observations.

use vstd::prelude::*;
use crate::models::{Amount, Observation, PriceData, observations};
use crate::wide;
use crate::wide::value;

verus! {

/// The rule by which observations are combined.
#[derive(Clone, Copy, Debug, PartialEq, Eq, Structural)]
pub enum Policy {
    /// The middle price after sorting: deaf to what a source says of itself.
    Median,
    /// The mean of the prices, each weighted by the inverse of its confidence
    /// width.
    Weighted,
}

/// Whether an observation may enter a consensus under `policy`.
pub open spec fn admits(policy: Policy) -> spec_fn(Observation) -> bool {
    |o: Observation|
        match policy {
            Policy::Median => o.has_finite_price(),
            Policy::Weighted => o.is_weightable(),
        }
}

/// The observations of `obs` that may enter a consensus under `policy`, in
/// input order.
pub open spec fn eligible(obs: Seq<Observation>, policy: Policy) -> Seq<Observation> {
    obs.filter(admits(policy))
}

/// The observations of `obs` at the positions `idx`, in the order of `idx`.
pub open spec fn picked(obs: Seq<Observation>, idx: Seq<usize>) -> Seq<Observation> {
    idx.map_values(|i: usize| obs[i as int])
}

/// Source tag of a consensus made by the weighted policy.
pub const WEIGHTED_SOURCE: &'static str = "weighted_consensus";

/// Source tag of a consensus made by the median policy.
pub const MEDIAN_SOURCE: &'static str = "consensus";

/// The product of the confidence widths of `v`.
pub open spec fn width_product(v: Seq<Observation>) -> int
    decreases v.len(),
{
    if v.len() == 0 {
        1
    } else {
        width_product(v.drop_last()) * v.last().confidence_ticks()
    }
}

/// The weight of the observation at position `i` of `v`: one over its
/// confidence width, times the product of all widths of `v`. This is the
/// product of the widths of all the others, a whole number.
pub open spec fn weight_of(v: Seq<Observation>, i: int) -> int {
    width_product(v) / v[i].confidence_ticks()
}

/// The sum of the weights of `v`.
pub open spec fn total_weight(v: Seq<Observation>) -> int
    decreases v.len(),
{
    if v.len() == 0 {
        0
    } else {
        // The weights of the others grow by the last width; the weight of
        // the last is the product of the widths before it.
        total_weight(v.drop_last()) * v.last().confidence_ticks() + width_product(v.drop_last())
    }
}

/// The sum of the prices of `v`, each times its weight.
pub open spec fn weighted_price_sum(v: Seq<Observation>) -> int
    decreases v.len(),
{
    if v.len() == 0 {
        0
    } else {
        weighted_price_sum(v.drop_last()) * v.last().confidence_ticks() + v.last().price_ticks()
            * width_product(v.drop_last())
    }
}

/// The sum of the confidence widths of `v`, each times its weight: every
/// width times its weight is the product of all widths.
pub open spec fn weighted_confidence_sum(v: Seq<Observation>) -> int {
    v.len() * width_product(v)
}

/// `n` divided by `d`, rounded to the nearest whole number, a half upward.
pub open spec fn rounded(n: int, d: int) -> int {
    (2 * n + d) / (2 * d)
}

/// The consensus of the weighted policy. Over the weightable observations,
/// each weighted by exactly one over its confidence width, it carries the
/// mean of the prices and the mean of the widths: the weighted sum divided
/// by the sum of the weights, in one division, rounded to the nearest tick,
/// a half upward. It stands under the symbol and timestamp of the first of
/// them. None where no observation is weightable.
pub open spec fn weighted_consensus(obs: Seq<Observation>) -> Option<Observation> {
    let v = eligible(obs, Policy::Weighted);
    if v.len() == 0 {
        None
    } else {
        Some(
            Observation {
                symbol: v[0].symbol,
                price: Some(rounded(weighted_price_sum(v), total_weight(v))),
                confidence: Some(rounded(weighted_confidence_sum(v), total_weight(v))),
                timestamp: v[0].timestamp,
                source: WEIGHTED_SOURCE@,
            },
        )
    }
}

/// `sorted` with `o` put behind the last observation whose price is not
/// above that of `o`.
pub open spec fn insert_by_price(sorted: Seq<Observation>, o: Observation) -> Seq<Observation>
    decreases sorted.len(),
{
    if sorted.len() == 0 || sorted.last().price_ticks() <= o.price_ticks() {
        sorted.push(o)
    } else {
        insert_by_price(sorted.drop_last(), o).push(sorted.last())
    }
}

/// The observations of `v` by ascending price; those of equal price keep the
/// order they have in `v`.
pub open spec fn sorted_by_price(v: Seq<Observation>) -> Seq<Observation>
    decreases v.len(),
{
    if v.len() == 0 {
        v
    } else {
        insert_by_price(sorted_by_price(v.drop_last()), v.last())
    }
}

/// The price in the middle of `s`, a sequence sorted by price: that of the
/// middle element where their number is odd, else the mean of the two in the
/// middle, rounded down to a tick.
pub open spec fn middle_price(s: Seq<Observation>) -> int {
    let half = s.len() as int / 2;
    if s.len() % 2 == 1 {
        s[half].price_ticks()
    } else {
        (s[half - 1].price_ticks() + s[half].price_ticks()) / 2
    }
}

/// The consensus of the median policy: the middle price of the observations
/// with a finite price, under the symbol, confidence width and timestamp of
/// the one at position `n / 2` of the `n` sorted by price. None where no
/// observation has a finite price.
pub open spec fn median_consensus(obs: Seq<Observation>) -> Option<Observation> {
    let v = eligible(obs, Policy::Median);
    if v.len() == 0 {
        None
    } else {
        let s = sorted_by_price(v);
        let mid = s[s.len() as int / 2];
        Some(
            Observation {
                symbol: mid.symbol,
                price: Some(middle_price(s)),
                confidence: mid.confidence,
                timestamp: mid.timestamp,
                source: MEDIAN_SOURCE@,
            },
        )
    }
}

/// The consensus of `obs` under `policy`.
pub open spec fn consensus(obs: Seq<Observation>, policy: Policy) -> Option<Observation> {
    match policy {
        Policy::Median => median_consensus(obs),
        Policy::Weighted => weighted_consensus(obs),
    }
}

/// What a function of the engine returns, as mathematics.
pub open spec fn consensus_view(r: Option<PriceData>) -> Option<Observation> {
    match r {
        Some(c) => Some(c@),
        None => None,
    }
}

/// Every eligible observation is one that the policy admits.
pub proof fn lemma_eligible_admitted(obs: Seq<Observation>, policy: Policy)
    ensures
        forall|i: int|
            0 <= i < eligible(obs, policy).len() ==> admits(policy)(
                #[trigger] eligible(obs, policy)[i],
            ),
        eligible(obs, policy).len() <= obs.len(),
{
    let all = eligible(obs, policy);
    obs.lemma_filter_len(admits(policy));
    assert forall|i: int| 0 <= i < all.len() implies admits(policy)(#[trigger] all[i]) by {
        obs.lemma_filter_pred(admits(policy), i);
    }
}

/// Whether every observation of `v` is weightable.
pub open spec fn all_weightable(v: Seq<Observation>) -> bool {
    forall|k: int| 0 <= k < v.len() ==> (#[trigger] v[k]).is_weightable()
}

/// The product of widths above zero is above zero, and so is the sum of the
/// weights of at least one observation: a weighted mean never divides by
/// zero.
pub proof fn lemma_total_weight_positive(v: Seq<Observation>)
    requires
        all_weightable(v),
    ensures
        width_product(v) >= 1,
        total_weight(v) >= 0,
        v.len() > 0 ==> total_weight(v) >= 1,
    decreases v.len(),
{
    if v.len() > 0 {
        let rest = v.drop_last();
        assert forall|k: int| 0 <= k < rest.len() implies (#[trigger] rest[k]).is_weightable() by {
            assert(rest[k] == v[k]);
        }
        lemma_total_weight_positive(rest);
        let c = v.last().confidence_ticks();
        assert(v[v.len() - 1].is_weightable());
        let p = width_product(rest);
        let t = total_weight(rest);
        assert(p * c >= 1 && t * c >= 0) by (nonlinear_arith)
            requires
                p >= 1,
                c >= 1,
                t >= 0,
        ;
    }
}

/// The weighted sum of the prices lies between the total weight times a
/// lower and times an upper bound of the prices.
pub proof fn lemma_price_sum_bounds(v: Seq<Observation>, lo: int, hi: int)
    requires
        all_weightable(v),
        forall|k: int| 0 <= k < v.len() ==> lo <= (#[trigger] v[k]).price_ticks() <= hi,
    ensures
        lo * total_weight(v) <= weighted_price_sum(v) <= hi * total_weight(v),
    decreases v.len(),
{
    if v.len() > 0 {
        let rest = v.drop_last();
        assert forall|k: int| 0 <= k < rest.len() implies (#[trigger] rest[k]).is_weightable() && lo
            <= rest[k].price_ticks() <= hi by {
            assert(rest[k] == v[k]);
        }
        lemma_price_sum_bounds(rest, lo, hi);
        lemma_total_weight_positive(rest);
        let last = v[v.len() - 1];
        assert(last.is_weightable());
        let c = last.confidence_ticks();
        let p = last.price_ticks();
        let w = width_product(rest);
        let t = total_weight(rest);
        let n = weighted_price_sum(rest);
        assert(lo * (t * c + w) <= n * c + p * w <= hi * (t * c + w)) by (nonlinear_arith)
            requires
                lo * t <= n <= hi * t,
                lo <= p <= hi,
                c >= 1,
                w >= 1,
        ;
    }
}

/// The weighted sum of the widths lies between the total weight times a
/// lower and times an upper bound of the widths.
pub proof fn lemma_width_sum_bounds(v: Seq<Observation>, lo: int, hi: int)
    requires
        all_weightable(v),
        forall|k: int| 0 <= k < v.len() ==> lo <= (#[trigger] v[k]).confidence_ticks() <= hi,
    ensures
        lo * total_weight(v) <= weighted_confidence_sum(v) <= hi * total_weight(v),
    decreases v.len(),
{
    if v.len() > 0 {
        let rest = v.drop_last();
        assert forall|k: int| 0 <= k < rest.len() implies (#[trigger] rest[k]).is_weightable() && lo
            <= rest[k].confidence_ticks() <= hi by {
            assert(rest[k] == v[k]);
        }
        lemma_width_sum_bounds(rest, lo, hi);
        lemma_total_weight_positive(rest);
        let last = v[v.len() - 1];
        assert(last.is_weightable());
        let c = last.confidence_ticks();
        let w = width_product(rest);
        let t = total_weight(rest);
        let m = rest.len() as int;
        assert(v.len() == m + 1);
        assert(lo * (t * c + w) <= (m + 1) * (w * c) <= hi * (t * c + w)) by (nonlinear_arith)
            requires
                lo * t <= m * w <= hi * t,
                lo <= c <= hi,
                c >= 1,
                w >= 1,
        ;
    } else {
        assert(0 * width_product(v) == 0);
    }
}

/// Inserting by price is inserting at the position behind which every price
/// is above the new one, and before which the price is not.
pub proof fn lemma_insert_position(sorted: Seq<Observation>, o: Observation, j: int)
    requires
        0 <= j <= sorted.len(),
        forall|m: int| j <= m < sorted.len() ==> (#[trigger] sorted[m]).price_ticks() > o.price_ticks(),
        j > 0 ==> sorted[j - 1].price_ticks() <= o.price_ticks(),
    ensures
        insert_by_price(sorted, o) == sorted.insert(j, o),
    decreases sorted.len(),
{
    if sorted.len() == 0 {
        assert(sorted.push(o) =~= sorted.insert(j, o));
    } else if j == sorted.len() {
        assert(sorted.push(o) =~= sorted.insert(j, o));
    } else {
        let rest = sorted.drop_last();
        assert(sorted[sorted.len() - 1].price_ticks() > o.price_ticks());
        assert forall|m: int| j <= m < rest.len() implies (#[trigger] rest[m]).price_ticks() > o.price_ticks() by {
            assert(rest[m] == sorted[m]);
        }
        lemma_insert_position(rest, o, j);
        assert(rest.insert(j, o).push(sorted.last()) =~= sorted.insert(j, o));
    }
}

/// Sorting keeps the number of observations.
pub proof fn lemma_sorted_len(v: Seq<Observation>)
    ensures
        sorted_by_price(v).len() == v.len(),
    decreases v.len(),
{
    if v.len() > 0 {
        lemma_sorted_len(v.drop_last());
        lemma_insert_len(sorted_by_price(v.drop_last()), v.last());
    }
}

/// Inserting adds one observation.
pub proof fn lemma_insert_len(sorted: Seq<Observation>, o: Observation)
    ensures
        insert_by_price(sorted, o).len() == sorted.len() + 1,
    decreases sorted.len(),
{
    if !(sorted.len() == 0 || sorted.last().price_ticks() <= o.price_ticks()) {
        lemma_insert_len(sorted.drop_last(), o);
    }
}

/// The engine itself. It holds no state.
pub struct Aggregator;

impl Aggregator {
    /// The positions of the observations that may enter a consensus under
    /// `policy`, ascending.
    pub fn eligible_positions(prices: &Vec<PriceData>, policy: Policy) -> (idx: Vec<usize>)
        ensures
            picked(observations(prices@), idx@) == eligible(observations(prices@), policy),
            forall|k: int| 0 <= k < idx@.len() ==> (#[trigger] idx@[k]) < prices@.len(),
            forall|j: int, k: int| 0 <= j < k < idx@.len() ==> idx@[j] < idx@[k],
    {
        let ghost obs = observations(prices@);
        let mut idx: Vec<usize> = Vec::new();
        let mut i: usize = 0;
        proof {
            reveal(Seq::filter);
            assert(obs.take(0) =~= Seq::<Observation>::empty());
            assert(picked(obs, idx@) =~= eligible(obs.take(0), policy));
        }
        while i < prices.len()
            invariant
                0 <= i <= prices@.len(),
                obs == observations(prices@),
                picked(obs, idx@) == eligible(obs.take(i as int), policy),
                forall|k: int| 0 <= k < idx@.len() ==> (#[trigger] idx@[k]) < i,
                forall|j: int, k: int| 0 <= j < k < idx@.len() ==> idx@[j] < idx@[k],
            decreases prices@.len() - i,
        {
            let p = &prices[i];
            let keep = match policy {
                Policy::Median => p.price.is_finite(),
                Policy::Weighted => p.price.is_finite() && p.confidence.is_positive(),
            };
            proof {
                reveal(Seq::filter);
                let next = obs.take(i + 1);
                assert(next.drop_last() =~= obs.take(i as int));
                assert(next.last() == obs[i as int]);
                assert(obs[i as int] == prices@[i as int]@);
                if keep {
                    assert(picked(obs, idx@.push(i)) =~= picked(obs, idx@).push(obs[i as int]));
                }
            }
            if keep {
                idx.push(i);
            }
            i += 1;
        }
        proof {
            assert(obs.take(prices@.len() as int) =~= obs);
        }
        idx
    }

    /// The quotient of `num` by `den`, rounded down.
    fn floor_div(num: i128, den: i128) -> (q: i128)
        requires
            den > 0,
        ensures
            q == num as int / den as int,
    {
        if num >= 0 {
            num / den
        } else {
            let m: i128 = -(num + 1);
            let a: i128 = m / den;
            proof {
                let b = m as int % den as int;
                vstd::arithmetic::div_mod::lemma_fundamental_div_mod(m as int, den as int);
                assert(num as int == (-(a as int) - 1) * den as int + (den as int - b - 1)) by (nonlinear_arith)
                    requires
                        m as int == den as int * (m as int / den as int) + b,
                        a as int == m as int / den as int,
                        num as int == -(m as int) - 1,
                ;
                vstd::arithmetic::div_mod::lemma_fundamental_div_mod_converse(
                    num as int,
                    den as int,
                    -(a as int) - 1,
                    den as int - b - 1,
                );
            }
            -1 - a
        }
    }

    /// The product of the widths of the observations at `idx`, the sum of
    /// their weights, and the sum of their weighted prices, each price
    /// counted from the lowest amount that ticks can hold, so that the sum
    /// has no sign.
    fn weighted_sums(prices: &Vec<PriceData>, idx: &Vec<usize>) -> (sums: (
        Vec<u64>,
        Vec<u64>,
        Vec<u64>,
    ))
        requires
            forall|j: int| 0 <= j < idx@.len() ==> (#[trigger] idx@[j]) < prices@.len(),
            all_weightable(picked(observations(prices@), idx@)),
        ensures
            value(sums.0@) == width_product(picked(observations(prices@), idx@)),
            value(sums.1@) == total_weight(picked(observations(prices@), idx@)),
            value(sums.2@) == weighted_price_sum(picked(observations(prices@), idx@)) - i64::MIN
                * total_weight(picked(observations(prices@), idx@)),
    {
        let ghost v = picked(observations(prices@), idx@);
        let n = idx.len();
        let mut product = wide::one();
        let mut weight = wide::zero();
        let mut shifted = wide::zero();
        let mut k: usize = 0;
        proof {
            assert(v.take(0) =~= Seq::<Observation>::empty());
        }
        while k < n
            invariant
                0 <= k <= n,
                n == idx@.len(),
                v == picked(observations(prices@), idx@),
                all_weightable(v),
                forall|j: int| 0 <= j < n ==> (#[trigger] idx@[j]) < prices@.len(),
                value(product@) == width_product(v.take(k as int)),
                value(weight@) == total_weight(v.take(k as int)),
                value(shifted@) == weighted_price_sum(v.take(k as int)) - i64::MIN * total_weight(
                    v.take(k as int),
                ),
            decreases n - k,
        {
            let p = Self::price_at(prices, idx[k]);
            let c = Self::width_at(prices, idx[k]);
            assert(v[k as int].is_weightable());
            let width: u64 = c as u64;
            let rise: u64 = (p as i128 - i64::MIN as i128) as u64;
            let product_up = wide::mul_small(&product, width);
            let weight_up = wide::mul_small(&weight, width);
            let shifted_up = wide::mul_small(&shifted, width);
            let share = wide::mul_small(&product, rise);
            let next_weight = wide::sum(&weight_up, &product);
            let next_shifted = wide::sum(&shifted_up, &share);
            proof {
                let next = v.take(k + 1);
                let before = v.take(k as int);
                assert(next.drop_last() =~= before);
                assert(next.last() == v[k as int]);
                let w = width_product(before);
                let t = total_weight(before);
                let s = weighted_price_sum(before);
                let low = i64::MIN as int;
                assert((s - low * t) * c + w * (p - low) == (s * c + p * w) - low * (t * c + w))
                    by (nonlinear_arith);
            }
            product = product_up;
            weight = next_weight;
            shifted = next_shifted;
            k += 1;
        }
        proof {
            assert(v.take(n as int) =~= v);
        }
        (product, weight, shifted)
    }

    /// Twice `sum` and `weight` on top: what, divided by twice `weight`,
    /// gives `sum` over `weight` to the nearest.
    fn twice_and_half(sum: &Vec<u64>, weight: &Vec<u64>) -> (r: Vec<u64>)
        ensures
            value(r@) == 2 * value(sum@) + value(weight@),
    {
        wide::sum(&wide::mul_small(sum, 2), weight)
    }

    /// The confidence-weighted consensus of `prices`.
    ///
    /// An observation takes part where its price is finite and its confidence
    /// width is a finite number above zero. Each one weighs exactly one over
    /// its width. The result carries the weighted mean of the prices and the
    /// weighted mean of the widths, each computed without loss and rounded
    /// to the nearest tick, a half upward, in the one division at the end.
    /// It stands under the symbol and timestamp of the first observation
    /// that took part, and under the source tag `WEIGHTED_SOURCE`. Where
    /// none takes part there is no consensus. However many the observations
    /// and whatever their size, the sums are exact: they are kept in as many
    /// limbs as they need.
    pub fn calculate_weighted_consensus(prices: Vec<PriceData>) -> (r: Option<PriceData>)
        ensures
            consensus_view(r) == weighted_consensus(observations(prices@)),
    {
        let ghost obs = observations(prices@);
        let ghost v = eligible(obs, Policy::Weighted);
        let idx = Self::eligible_positions(&prices, Policy::Weighted);
        if idx.len() == 0 {
            return None;
        }
        proof {
            lemma_eligible_admitted(obs, Policy::Weighted);
            assert forall|k: int| 0 <= k < v.len() implies (#[trigger] v[k]).is_weightable() by {
                assert(admits(Policy::Weighted)(v[k]));
            }
            lemma_total_weight_positive(v);
            lemma_price_sum_bounds(v, i64::MIN as int, i64::MAX as int);
            lemma_width_sum_bounds(v, 1, i64::MAX as int);
        }
        let (product, weight, shifted) = Self::weighted_sums(&prices, &idx);
        let ghost total = total_weight(v);
        let ghost sum = weighted_price_sum(v);
        let ghost low = i64::MIN as int;
        let twice_weight = wide::mul_small(&weight, 2);
        let price_top = Self::twice_and_half(&shifted, &weight);
        proof {
            assert((2 * (sum - low * total) + total) < wide::BASE * (total * 2)) by (nonlinear_arith)
                requires
                    low * total <= sum <= i64::MAX * total,
                    low == i64::MIN,
                    total > 0,
            ;
        }
        let rise = match wide::quotient(&price_top, &twice_weight) {
            Some(q) => q,
            // Never taken: the mean lies between the prices, so it fits.
            None => return None,
        };
        proof {
            let top = 2 * (sum - low * total) + total;
            let den = total * 2;
            let rest = top - rise * den;
            vstd::arithmetic::div_mod::lemma_fundamental_div_mod(top, den);
            vstd::arithmetic::div_mod::lemma_mod_bound(top, den);
            assert(rest == top % den) by (nonlinear_arith)
                requires
                    top == den * (top / den) + top % den,
                    rise == top / den,
                    rest == top - rise * den,
            ;
            assert(2 * sum + total == (rise + low) * (2 * total) + rest) by (nonlinear_arith)
                requires
                    rest == top - rise * den,
                    top == 2 * (sum - low * total) + total,
                    den == total * 2,
            ;
            vstd::arithmetic::div_mod::lemma_fundamental_div_mod_converse(
                2 * sum + total,
                2 * total,
                rise + low,
                rest,
            );
        }
        let price: i64 = (rise as i128 + i64::MIN as i128) as i64;
        let count: u64 = idx.len() as u64;
        let widths = wide::mul_small(&product, count);
        proof {
            assert(value(widths@) == weighted_confidence_sum(v)) by (nonlinear_arith)
                requires
                    value(widths@) == width_product(v) * count,
                    weighted_confidence_sum(v) == count * width_product(v),
            ;
        }
        let width_top = Self::twice_and_half(&widths, &weight);
        proof {
            let w = weighted_confidence_sum(v);
            assert(0 <= (2 * w + total) / (2 * total) <= i64::MAX && 2 * w + total < wide::BASE * (
            total * 2) && total * 2 == 2 * total) by (nonlinear_arith)
                requires
                    1 * total <= w <= i64::MAX * total,
                    total > 0,
            ;
            assert(v[0] == prices@[idx@[0] as int]@);
        }
        let width = match wide::quotient(&width_top, &twice_weight) {
            Some(q) => q,
            // Never taken: the mean lies between the widths, so it fits.
            None => return None,
        };
        let first = &prices[idx[0]];
        Some(
            PriceData {
                symbol: first.symbol.clone(),
                price: Amount::Finite(price),
                confidence: Amount::Finite(width as i64),
                timestamp: first.timestamp,
                source: String::from_str(WEIGHTED_SOURCE),
            },
        )
    }

    /// The median consensus of `prices`.
    ///
    /// An observation takes part where its price is finite. The result
    /// carries the middle price: that of the middle observation after a
    /// stable sort by price, or, where their number `n` is even, the mean of
    /// the two in the middle, rounded down to a tick. Symbol, confidence
    /// width and timestamp are those of the observation at position `n / 2`
    /// of the sorted ones, and the source tag is `MEDIAN_SOURCE`. Where none
    /// takes part there is no consensus.
    pub fn calculate_median(prices: Vec<PriceData>) -> (r: Option<PriceData>)
        ensures
            consensus_view(r) == median_consensus(observations(prices@)),
    {
        let ghost obs = observations(prices@);
        let ghost v = eligible(obs, Policy::Median);
        let idx = Self::eligible_positions(&prices, Policy::Median);
        let n = idx.len();
        if n == 0 {
            return None;
        }
        proof {
            assert(picked(obs, idx@).len() == n);
            assert forall|k: int| 0 <= k < n implies v[k] == prices@[idx@[k] as int]@ by {
                assert(picked(obs, idx@)[k] == obs[idx@[k] as int]);
            }
        }
        let mut order: Vec<usize> = Vec::new();
        let mut k: usize = 0;
        proof {
            assert(v.take(0) =~= Seq::<Observation>::empty());
            assert(picked(obs, order@) =~= sorted_by_price(v.take(0)));
        }
        while k < n
            invariant
                0 <= k <= n,
                n == idx@.len(),
                n == v.len(),
                obs == observations(prices@),
                order@.len() == k,
                forall|j: int| 0 <= j < n ==> (#[trigger] idx@[j]) < prices@.len(),
                forall|j: int| 0 <= j < n ==> (#[trigger] v[j]) == prices@[idx@[j] as int]@,
                forall|j: int| 0 <= j < k ==> (#[trigger] order@[j]) < prices@.len(),
                picked(obs, order@) == sorted_by_price(v.take(k as int)),
            decreases n - k,
        {
            let i = idx[k];
            let p = Self::price_at(&prices, i);
            let ghost sorted = picked(obs, order@);
            let mut j: usize = order.len();
            while j > 0 && Self::price_at(&prices, order[j - 1]) > p
                invariant
                    0 <= j <= order@.len(),
                    obs == observations(prices@),
                    sorted == picked(obs, order@),
                    i < prices@.len(),
                    p == prices@[i as int]@.price_ticks(),
                    forall|m: int| 0 <= m < order@.len() ==> (#[trigger] order@[m]) < prices@.len(),
                    forall|m: int| j <= m < sorted.len() ==> (#[trigger] sorted[m]).price_ticks() > p,
                decreases j,
            {
                proof {
                    assert(sorted[j - 1] == obs[order@[j - 1] as int]);
                }
                j -= 1;
            }
            proof {
                if j > 0 {
                    assert(sorted[j - 1] == obs[order@[j - 1] as int]);
                }
                let next = v.take(k + 1);
                assert(next.drop_last() =~= v.take(k as int));
                assert(next.last() == v[k as int]);
                assert(v[k as int] == obs[i as int]);
                lemma_insert_position(sorted, v[k as int], j as int);
                assert(picked(obs, order@.insert(j as int, i)) =~= sorted.insert(j as int, obs[i as int]));
            }
            order.insert(j, i);
            k += 1;
        }
        proof {
            assert(v.take(n as int) =~= v);
            lemma_sorted_len(v);
        }
        let ghost s = sorted_by_price(v);
        let mid = &prices[order[n / 2]];
        proof {
            assert(s[n as int / 2] == obs[order@[n as int / 2] as int]);
        }
        let high = Self::price_at(&prices, order[n / 2]);
        let price = if n % 2 == 1 {
            high
        } else {
            proof {
                assert(s[n as int / 2 - 1] == obs[order@[n as int / 2 - 1] as int]);
            }
            let low = Self::price_at(&prices, order[n / 2 - 1]);
            Self::floor_div(low as i128 + high as i128, 2) as i64
        };
        Some(
            PriceData {
                symbol: mid.symbol.clone(),
                price: Amount::Finite(price),
                confidence: mid.confidence,
                timestamp: mid.timestamp,
                source: String::from_str(MEDIAN_SOURCE),
            },
        )
    }

    /// The consensus of `prices` under `policy`.
    pub fn calculate(policy: Policy, prices: Vec<PriceData>) -> (r: Option<PriceData>)
        ensures
            consensus_view(r) == consensus(observations(prices@), policy),
    {
        match policy {
            Policy::Median => Self::calculate_median(prices),
            Policy::Weighted => Self::calculate_weighted_consensus(prices),
        }
    }

    /// Ticks of the price at position `i`; zero where it is not finite.
    fn price_at(prices: &Vec<PriceData>, i: usize) -> (t: i64)
        requires
            i < prices@.len(),
        ensures
            t == prices@[i as int]@.price_ticks(),
    {
        match prices[i].price {
            Amount::Finite(t) => t,
            Amount::NonFinite => 0,
        }
    }

    /// Ticks of the confidence width at position `i`; zero where it is not
    /// finite.
    fn width_at(prices: &Vec<PriceData>, i: usize) -> (t: i64)
        requires
            i < prices@.len(),
        ensures
            t == prices@[i as int]@.confidence_ticks(),
    {
        match prices[i].confidence {
            Amount::Finite(t) => t,
            Amount::NonFinite => 0,
        }
    }
}

} // verus!
