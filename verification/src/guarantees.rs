//! What the consensus engine guarantees, for every input.

use vstd::prelude::*;
use crate::models::Observation;
use crate::aggregator::{
    Policy, admits, all_weightable, consensus, eligible, insert_by_price,
    lemma_eligible_admitted, lemma_insert_len, lemma_price_sum_bounds, lemma_sorted_len,
    lemma_total_weight_positive, lemma_width_sum_bounds, rounded, sorted_by_price,
    total_weight, weight_of, weighted_confidence_sum, weighted_consensus, weighted_price_sum, width_product,
    MEDIAN_SOURCE, WEIGHTED_SOURCE,
};
use crate::ingest::ATTACKER_SOURCE;
use crate::oracle_client::PYTH_SOURCE;

verus! {

/// There is a consensus exactly where the policy admits at least one of the
/// observations.
pub proof fn theorem_consensus_exists(obs: Seq<Observation>, policy: Policy)
    ensures
        consensus(obs, policy) is Some <==> exists|i: int|
            0 <= i < obs.len() && admits(policy)(#[trigger] obs[i]),
{
    let all = eligible(obs, policy);
    if all.len() > 0 {
        obs.lemma_filter_pred(admits(policy), 0);
        assert(all.contains(all[0]));
        obs.lemma_filter_contains_rev(admits(policy), all[0]);
        let i = choose|i: int| 0 <= i < obs.len() && obs[i] == all[0];
        assert(admits(policy)(obs[i]));
    }
    if exists|i: int| 0 <= i < obs.len() && admits(policy)(#[trigger] obs[i]) {
        let i = choose|i: int| 0 <= i < obs.len() && admits(policy)(#[trigger] obs[i]);
        obs.lemma_filter_contains(admits(policy), i);
        let k = choose|k: int| 0 <= k < all.len() && all[k] == obs[i];
        assert(all.len() > 0);
    }
}

/// An observation that the policy does not admit has no part in the
/// consensus: with it or without it the result is the same.
pub proof fn theorem_inadmissible_is_ignored(obs: Seq<Observation>, policy: Policy, i: int)
    requires
        0 <= i < obs.len(),
        !admits(policy)(obs[i]),
    ensures
        eligible(obs.remove(i), policy) == eligible(obs, policy),
        consensus(obs.remove(i), policy) == consensus(obs, policy),
{
    let pred = admits(policy);
    let head = obs.subrange(0, i);
    let one = seq![obs[i]];
    let tail = obs.subrange(i + 1, obs.len() as int);
    assert(obs =~= head + one + tail);
    assert(one.filter(pred) =~= Seq::<Observation>::empty()) by {
        reveal_with_fuel(Seq::filter, 2);
        assert(one.drop_last() =~= Seq::<Observation>::empty());
    }
    Seq::filter_distributes_over_add(head, one, pred);
    Seq::filter_distributes_over_add(head + one, tail, pred);
    Seq::filter_distributes_over_add(head, tail, pred);
    assert((head + one + tail).filter(pred) =~= (head + tail).filter(pred));
}

/// Every sorted observation is one of the observations that were sorted.
pub proof fn lemma_sorted_permutes(v: Seq<Observation>)
    ensures
        sorted_by_price(v).to_multiset() == v.to_multiset(),
        forall|k: int| 0 <= k < v.len() ==> v.contains(#[trigger] sorted_by_price(v)[k]),
        sorted_by_price(v).len() == v.len(),
    decreases v.len(),
{
    lemma_sorted_len(v);
    if v.len() > 0 {
        let rest = v.drop_last();
        lemma_sorted_permutes(rest);
        lemma_insert_permutes(sorted_by_price(rest), v.last());
        assert(v =~= rest.push(v.last()));
        vstd::seq_lib::to_multiset_build(rest, v.last());
    }
    let s = sorted_by_price(v);
    assert forall|k: int| 0 <= k < v.len() implies v.contains(#[trigger] s[k]) by {
        assert(s.contains(s[k]));
        vstd::seq_lib::to_multiset_contains(s, s[k]);
        vstd::seq_lib::to_multiset_contains(v, s[k]);
    }
}

/// Inserting by price adds the new observation and nothing else.
pub proof fn lemma_insert_permutes(sorted: Seq<Observation>, o: Observation)
    ensures
        insert_by_price(sorted, o).to_multiset() == sorted.to_multiset().insert(o),
    decreases sorted.len(),
{
    if sorted.len() == 0 || sorted.last().price_ticks() <= o.price_ticks() {
        vstd::seq_lib::to_multiset_build(sorted, o);
    } else {
        let rest = sorted.drop_last();
        lemma_insert_permutes(rest, o);
        vstd::seq_lib::to_multiset_build(insert_by_price(rest, o), sorted.last());
        vstd::seq_lib::to_multiset_build(rest, sorted.last());
        assert(sorted =~= rest.push(sorted.last()));
        assert(rest.to_multiset().insert(o).insert(sorted.last()) =~= rest.to_multiset().insert(
            sorted.last(),
        ).insert(o));
    }
}

/// Whether the prices of `s` never fall from one observation to the next.
pub open spec fn ascending(s: Seq<Observation>) -> bool {
    forall|i: int, j: int| 0 <= i <= j < s.len() ==> s[i].price_ticks() <= s[j].price_ticks()
}

/// Inserting by price into an ascending sequence leaves it ascending.
pub proof fn lemma_insert_ascending(sorted: Seq<Observation>, o: Observation)
    requires
        ascending(sorted),
    ensures
        ascending(insert_by_price(sorted, o)),
        forall|k: int|
            0 <= k < insert_by_price(sorted, o).len() ==> (#[trigger] insert_by_price(sorted, o)[k])
                == o || sorted.contains(insert_by_price(sorted, o)[k]),
    decreases sorted.len(),
{
    let out = insert_by_price(sorted, o);
    if sorted.len() == 0 || sorted.last().price_ticks() <= o.price_ticks() {
        assert forall|k: int| 0 <= k < out.len() implies (#[trigger] out[k]) == o || sorted.contains(
            out[k],
        ) by {
            if k < sorted.len() {
                assert(out[k] == sorted[k]);
            }
        }
        assert forall|i: int, j: int| 0 <= i <= j < out.len() implies out[i].price_ticks()
            <= out[j].price_ticks() by {
            if j < sorted.len() {
                assert(out[i] == sorted[i] && out[j] == sorted[j]);
            } else if i < sorted.len() {
                assert(out[i] == sorted[i]);
                assert(sorted[i].price_ticks() <= sorted[sorted.len() - 1].price_ticks());
            }
        }
    } else {
        let rest = sorted.drop_last();
        let last = sorted.last();
        assert forall|i: int, j: int| 0 <= i <= j < rest.len() implies rest[i].price_ticks()
            <= rest[j].price_ticks() by {
            assert(rest[i] == sorted[i] && rest[j] == sorted[j]);
        }
        lemma_insert_ascending(rest, o);
        lemma_insert_len(rest, o);
        let inner = insert_by_price(rest, o);
        assert(out == inner.push(last));
        assert forall|k: int| 0 <= k < out.len() implies (#[trigger] out[k]) == o || sorted.contains(
            out[k],
        ) by {
            if k < inner.len() {
                assert(out[k] == inner[k]);
                if inner[k] != o {
                    let m = choose|m: int| 0 <= m < rest.len() && rest[m] == inner[k];
                    assert(sorted[m] == inner[k]);
                }
            } else {
                assert(out[k] == sorted[sorted.len() - 1]);
            }
        }
        assert forall|i: int, j: int| 0 <= i <= j < out.len() implies out[i].price_ticks()
            <= out[j].price_ticks() by {
            if j < inner.len() {
                assert(out[i] == inner[i] && out[j] == inner[j]);
            } else if i < inner.len() {
                assert(out[i] == inner[i]);
                if inner[i] != o {
                    let m = choose|m: int| 0 <= m < rest.len() && rest[m] == inner[i];
                    assert(sorted[m] == inner[i]);
                    assert(sorted[m].price_ticks() <= sorted[sorted.len() - 1].price_ticks());
                }
            }
        }
    }
}

/// The sorted observations ascend by price.
pub proof fn theorem_sorted_ascends(v: Seq<Observation>)
    ensures
        ascending(sorted_by_price(v)),
    decreases v.len(),
{
    if v.len() > 0 {
        theorem_sorted_ascends(v.drop_last());
        lemma_insert_ascending(sorted_by_price(v.drop_last()), v.last());
    }
}

/// The observations of `v` whose price is `p`, in the order of `v`.
pub open spec fn priced_at(v: Seq<Observation>, p: int) -> Seq<Observation> {
    v.filter(|o: Observation| o.price_ticks() == p)
}

/// Inserting by price puts the new observation behind those of its own
/// price and leaves the others in their order.
pub proof fn lemma_insert_stable(sorted: Seq<Observation>, o: Observation, p: int)
    ensures
        priced_at(insert_by_price(sorted, o), p) == if o.price_ticks() == p {
            priced_at(sorted, p).push(o)
        } else {
            priced_at(sorted, p)
        },
    decreases sorted.len(),
{
    reveal(Seq::filter);
    let pred = |o: Observation| o.price_ticks() == p;
    if sorted.len() == 0 || sorted.last().price_ticks() <= o.price_ticks() {
        assert(sorted.push(o).drop_last() =~= sorted);
    } else {
        let rest = sorted.drop_last();
        let last = sorted.last();
        lemma_insert_stable(rest, o, p);
        let inner = insert_by_price(rest, o);
        assert(inner.push(last).drop_last() =~= inner);
        assert(last.price_ticks() != o.price_ticks());
    }
}

/// The sort is stable: observations of one price keep their input order.
pub proof fn theorem_sorted_is_stable(v: Seq<Observation>, p: int)
    ensures
        priced_at(sorted_by_price(v), p) == priced_at(v, p),
    decreases v.len(),
{
    reveal(Seq::filter);
    if v.len() > 0 {
        theorem_sorted_is_stable(v.drop_last(), p);
        lemma_insert_stable(sorted_by_price(v.drop_last()), v.last(), p);
    }
}

/// The sorted observations are those that were sorted, each as often.
pub proof fn theorem_sorted_is_permutation(v: Seq<Observation>)
    ensures
        sorted_by_price(v).to_multiset() == v.to_multiset(),
        sorted_by_price(v).len() == v.len(),
{
    lemma_sorted_permutes(v);
}

/// Every eligible observation is one of the inputs.
pub proof fn lemma_eligible_from_input(obs: Seq<Observation>, policy: Policy, k: int)
    requires
        0 <= k < eligible(obs, policy).len(),
    ensures
        obs.contains(eligible(obs, policy)[k]),
        admits(policy)(eligible(obs, policy)[k]),
{
    let all = eligible(obs, policy);
    assert(all.contains(all[k]));
    obs.lemma_filter_contains_rev(admits(policy), all[k]);
    obs.lemma_filter_pred(admits(policy), k);
}

/// Where all observations are for one symbol, the consensus is for that
/// symbol.
pub proof fn theorem_consensus_keeps_symbol(
    obs: Seq<Observation>,
    policy: Policy,
    symbol: Seq<char>,
)
    requires
        forall|i: int| 0 <= i < obs.len() ==> (#[trigger] obs[i]).symbol == symbol,
    ensures
        consensus(obs, policy) matches Some(c) ==> c.symbol == symbol,
{
    let all = eligible(obs, policy);
    if all.len() > 0 {
        match policy {
            Policy::Weighted => {
                lemma_eligible_from_input(obs, policy, 0);
            },
            Policy::Median => {
                lemma_sorted_permutes(all);
                let mid = sorted_by_price(all)[all.len() as int / 2];
                assert(all.contains(mid));
                let k = choose|k: int| 0 <= k < all.len() && all[k] == mid;
                lemma_eligible_from_input(obs, policy, k);
            },
        }
    }
}

/// Where exactly one observation is eligible, the consensus repeats its
/// price and confidence width, under its symbol and timestamp.
pub proof fn theorem_single_observation(obs: Seq<Observation>, policy: Policy)
    requires
        eligible(obs, policy).len() == 1,
    ensures
        consensus(obs, policy) matches Some(c) && {
            let only = eligible(obs, policy)[0];
            &&& c.price == only.price
            &&& c.confidence == only.confidence
            &&& c.symbol == only.symbol
            &&& c.timestamp == only.timestamp
        },
{
    let all = eligible(obs, policy);
    let only = all[0];
    lemma_eligible_from_input(obs, policy, 0);
    assert(all.drop_last() =~= Seq::<Observation>::empty());
    assert(all.last() == only);
    match policy {
        Policy::Weighted => {
            let c = only.confidence_ticks();
            let p = only.price_ticks();
            let none = all.drop_last();
            assert(width_product(none) == 1);
            assert(total_weight(none) == 0);
            assert(weighted_price_sum(none) == 0);
            assert(width_product(all) == c) by (nonlinear_arith)
                requires
                    width_product(all) == 1 * c,
            ;
            assert(total_weight(all) == 1) by (nonlinear_arith)
                requires
                    total_weight(all) == 0 * c + 1,
            ;
            assert(weighted_price_sum(all) == p) by (nonlinear_arith)
                requires
                    weighted_price_sum(all) == 0 * c + p * 1,
            ;
            assert(all.len() == 1);
            assert(weighted_confidence_sum(all) == c) by (nonlinear_arith)
                requires
                    weighted_confidence_sum(all) == 1 * width_product(all),
                    width_product(all) == c,
            ;
            assert(only.is_weightable());
            assert(rounded(p, 1) == p && rounded(c, 1) == c);
        },
        Policy::Median => {
            reveal_with_fuel(sorted_by_price, 2);
            reveal_with_fuel(insert_by_price, 2);
            assert(sorted_by_price(all) =~= all);
        },
    }
}

/// The observations that a weighted consensus is made of are weightable.
pub proof fn lemma_weighted_inputs(obs: Seq<Observation>)
    ensures
        all_weightable(eligible(obs, Policy::Weighted)),
{
    let all = eligible(obs, Policy::Weighted);
    lemma_eligible_admitted(obs, Policy::Weighted);
    assert forall|k: int| 0 <= k < all.len() implies (#[trigger] all[k]).is_weightable() by {
        assert(admits(Policy::Weighted)(all[k]));
    }
}

/// The consensus price is a finite number that lies between the lowest and
/// the highest price of the eligible observations.
pub proof fn theorem_price_within_inputs(obs: Seq<Observation>, policy: Policy, lo: int, hi: int)
    requires
        forall|k: int|
            0 <= k < eligible(obs, policy).len() ==> lo <= (#[trigger] eligible(
                obs,
                policy,
            )[k]).price_ticks() <= hi,
    ensures
        consensus(obs, policy) matches Some(c) ==> c.price matches Some(p) && lo <= p <= hi,
{
    let all = eligible(obs, policy);
    if all.len() > 0 {
        match policy {
            Policy::Weighted => {
                lemma_weighted_inputs(obs);
                lemma_total_weight_positive(all);
                lemma_price_sum_bounds(all, lo, hi);
                let t = total_weight(all);
                let n = weighted_price_sum(all);
                assert(lo <= (2 * n + t) / (2 * t) <= hi) by (nonlinear_arith)
                    requires
                        lo * t <= n <= hi * t,
                        t > 0,
                ;
            },
            Policy::Median => {
                lemma_sorted_permutes(all);
                let s = sorted_by_price(all);
                let half = s.len() as int / 2;
                assert(all.contains(s[half]));
                if s.len() % 2 == 0 {
                    assert(all.contains(s[half - 1]));
                }
            },
        }
    }
}

/// The confidence width of a weighted consensus is a finite number that
/// lies between the tightest and the widest width of the weightable
/// observations: it is above zero.
pub proof fn theorem_width_within_inputs(obs: Seq<Observation>, lo: int, hi: int)
    requires
        forall|k: int|
            0 <= k < eligible(obs, Policy::Weighted).len() ==> lo <= (#[trigger] eligible(
                obs,
                Policy::Weighted,
            )[k]).confidence_ticks() <= hi,
    ensures
        weighted_consensus(obs) matches Some(c) ==> c.confidence matches Some(w) && lo <= w <= hi
            && 0 < w,
{
    let all = eligible(obs, Policy::Weighted);
    if all.len() > 0 {
        lemma_weighted_inputs(obs);
        lemma_total_weight_positive(all);
        lemma_width_sum_bounds(all, lo, hi);
        lemma_width_sum_bounds(all, 1, hi);
        let t = total_weight(all);
        let n = weighted_confidence_sum(all);
        assert(lo <= (2 * n + t) / (2 * t) <= hi && 1 <= (2 * n + t) / (2 * t)) by (nonlinear_arith)
            requires
                lo * t <= n <= hi * t,
                1 * t <= n,
                t > 0,
        ;
    }
}

/// The sum over `v` of `unit` divided by each width.
pub open spec fn inverse_width_sum(v: Seq<Observation>, unit: int) -> int
    decreases v.len(),
{
    if v.len() == 0 {
        0
    } else {
        inverse_width_sum(v.drop_last(), unit) + unit / v.last().confidence_ticks()
    }
}

/// The sum over `v` of each price times `unit` divided by its width.
pub open spec fn inverse_width_price_sum(v: Seq<Observation>, unit: int) -> int
    decreases v.len(),
{
    if v.len() == 0 {
        0
    } else {
        inverse_width_price_sum(v.drop_last(), unit) + v.last().price_ticks() * (unit
            / v.last().confidence_ticks())
    }
}

/// Whether every width of `v` divides `unit`.
pub open spec fn divides_by_all(v: Seq<Observation>, unit: int) -> bool {
    forall|k: int| 0 <= k < v.len() ==> unit % (#[trigger] v[k]).confidence_ticks() == 0
}

/// A multiple of what a width divides is divided by it too, into as many
/// times the quotient.
pub proof fn lemma_divided_multiple(unit: int, c: int, m: int)
    requires
        c > 0,
        unit % c == 0,
    ensures
        (unit * m) % c == 0,
        (unit * m) / c == (unit / c) * m,
{
    let k = unit / c;
    vstd::arithmetic::div_mod::lemma_fundamental_div_mod(unit, c);
    assert(unit * m == (k * m) * c + 0) by (nonlinear_arith)
        requires
            unit == c * k + 0,
    ;
    vstd::arithmetic::div_mod::lemma_fundamental_div_mod_converse(unit * m, c, k * m, 0);
}

/// The sums over inverse widths grow with the unit.
pub proof fn lemma_inverse_sums_scale(v: Seq<Observation>, unit: int, m: int)
    requires
        all_weightable(v),
        divides_by_all(v, unit),
    ensures
        inverse_width_sum(v, unit * m) == inverse_width_sum(v, unit) * m,
        inverse_width_price_sum(v, unit * m) == inverse_width_price_sum(v, unit) * m,
        divides_by_all(v, unit * m),
    decreases v.len(),
{
    if v.len() > 0 {
        let rest = v.drop_last();
        assert forall|k: int| 0 <= k < rest.len() implies (#[trigger] rest[k]).is_weightable()
            && unit % rest[k].confidence_ticks() == 0 by {
            assert(rest[k] == v[k]);
        }
        lemma_inverse_sums_scale(rest, unit, m);
        let last = v[v.len() - 1];
        assert(last.is_weightable());
        let c = last.confidence_ticks();
        let p = last.price_ticks();
        lemma_divided_multiple(unit, c, m);
        let a = inverse_width_sum(rest, unit);
        let b = inverse_width_price_sum(rest, unit);
        let w = unit / c;
        assert(a * m + w * m == (a + w) * m && b * m + p * (w * m) == (b + p * w) * m)
            by (nonlinear_arith);
    }
    assert forall|k: int| 0 <= k < v.len() implies (unit * m) % (#[trigger] v[k]).confidence_ticks()
        == 0 by {
        assert(v[k].is_weightable());
        lemma_divided_multiple(unit, v[k].confidence_ticks(), m);
    }
}

/// The weights are exactly one over the widths, all times the product of
/// the widths: each weight times its width is that product, the sum of the
/// weights is the sum of the product over each width, and the weighted sum
/// of the prices is the sum of each price times the product over its width.
pub proof fn theorem_weights_are_inverse_widths(v: Seq<Observation>)
    requires
        all_weightable(v),
    ensures
        divides_by_all(v, width_product(v)),
        forall|i: int| 0 <= i < v.len() ==> (#[trigger] weight_of(v, i)) * v[i].confidence_ticks()
            == width_product(v),
        total_weight(v) == inverse_width_sum(v, width_product(v)),
        weighted_price_sum(v) == inverse_width_price_sum(v, width_product(v)),
    decreases v.len(),
{
    if v.len() > 0 {
        let rest = v.drop_last();
        assert forall|k: int| 0 <= k < rest.len() implies (#[trigger] rest[k]).is_weightable() by {
            assert(rest[k] == v[k]);
        }
        theorem_weights_are_inverse_widths(rest);
        lemma_total_weight_positive(rest);
        let last = v[v.len() - 1];
        assert(last.is_weightable());
        let c = last.confidence_ticks();
        let w = width_product(rest);
        lemma_inverse_sums_scale(rest, w, c);
        vstd::arithmetic::div_mod::lemma_fundamental_div_mod_converse(w * c, c, w, 0);
        assert forall|k: int| 0 <= k < v.len() implies width_product(v) % (#[trigger] v[k]).confidence_ticks()
            == 0 by {
            if k < rest.len() {
                assert(rest[k] == v[k]);
            }
        }
    }
    assert forall|i: int| 0 <= i < v.len() implies (#[trigger] weight_of(v, i)) * v[i].confidence_ticks()
        == width_product(v) by {
        assert(v[i].is_weightable());
        let c = v[i].confidence_ticks();
        vstd::arithmetic::div_mod::lemma_fundamental_div_mod(width_product(v), c);
        assert((width_product(v) / c) * c == c * (width_product(v) / c)) by (nonlinear_arith);
    }
}

/// The wider the confidence interval, the smaller the weight.
pub proof fn theorem_weight_falls_with_width(v: Seq<Observation>, narrow: int, wide: int)
    requires
        all_weightable(v),
        0 <= narrow < v.len(),
        0 <= wide < v.len(),
        v[narrow].confidence_ticks() <= v[wide].confidence_ticks(),
    ensures
        0 < weight_of(v, wide) <= weight_of(v, narrow),
{
    theorem_weights_are_inverse_widths(v);
    lemma_total_weight_positive(v);
    assert(v[narrow].is_weightable() && v[wide].is_weightable());
    let a = weight_of(v, narrow);
    let b = weight_of(v, wide);
    let ca = v[narrow].confidence_ticks();
    let cb = v[wide].confidence_ticks();
    let p = width_product(v);
    assert(0 < b <= a) by (nonlinear_arith)
        requires
            a * ca == p,
            b * cb == p,
            0 < ca <= cb,
            p >= 1,
    ;
}

/// The sums over two observations, written out.
pub proof fn lemma_sums_of_two(v: Seq<Observation>)
    requires
        v.len() == 2,
    ensures
        total_weight(v) == v[1].confidence_ticks() + v[0].confidence_ticks(),
        weighted_price_sum(v) == v[0].price_ticks() * v[1].confidence_ticks() + v[1].price_ticks()
            * v[0].confidence_ticks(),
{
    let head = v.drop_last();
    let none = head.drop_last();
    assert(head.len() == 1);
    assert(head.last() == v[0]);
    assert(none =~= Seq::<Observation>::empty());
    assert(v.last() == v[1]);
    let a = v[0].confidence_ticks();
    let b = v[1].confidence_ticks();
    let p = v[0].price_ticks();
    let q = v[1].price_ticks();
    assert(width_product(none) == 1);
    assert(total_weight(none) == 0);
    assert(weighted_price_sum(none) == 0);
    assert(width_product(head) == a) by (nonlinear_arith)
        requires
            width_product(head) == 1 * a,
    ;
    assert(total_weight(head) == 1) by (nonlinear_arith)
        requires
            total_weight(head) == 0 * a + 1,
    ;
    assert(weighted_price_sum(head) == p) by (nonlinear_arith)
        requires
            weighted_price_sum(head) == 0 * a + p * 1,
    ;
    assert(total_weight(v) == b + a) by (nonlinear_arith)
        requires
            total_weight(v) == 1 * b + a,
    ;
    assert(weighted_price_sum(v) == p * b + q * a);
}

/// Of two weightable observations the tighter prevails. The weighted mean
/// itself lies on the tighter one's side of the middle between the two
/// prices, and strictly so where it is strictly tighter and the prices
/// differ. The consensus price, which is that mean rounded to a tick, lies
/// between the two prices and is at least as near to the price of the
/// tighter as to that of the wider, but for the tick that rounding upward
/// may add when the wider reports the higher price.
pub proof fn theorem_tighter_source_prevails(
    obs: Seq<Observation>,
    tighter: Observation,
    wider: Observation,
)
    requires
        eligible(obs, Policy::Weighted) == seq![tighter, wider] || eligible(obs, Policy::Weighted)
            == seq![wider, tighter],
        tighter.confidence_ticks() <= wider.confidence_ticks(),
    ensures
        weighted_consensus(obs) matches Some(c) && c.price matches Some(q) && {
            let near = tighter.price_ticks();
            let far = wider.price_ticks();
            let all = eligible(obs, Policy::Weighted);
            let strictly = tighter.confidence_ticks() < wider.confidence_ticks();
            &&& near <= far ==> 2 * weighted_price_sum(all) <= (near + far) * total_weight(all)
            &&& near >= far ==> 2 * weighted_price_sum(all) >= (near + far) * total_weight(all)
            &&& near < far && strictly ==> 2 * weighted_price_sum(all) < (near + far)
                * total_weight(all)
            &&& near > far && strictly ==> 2 * weighted_price_sum(all) > (near + far)
                * total_weight(all)
            &&& near <= far ==> near <= q <= far && q - near <= far - q + 1
            &&& near < far && strictly ==> q - near <= far - q
            &&& near >= far ==> far <= q <= near && near - q <= q - far
        },
{
    let v = eligible(obs, Policy::Weighted);
    lemma_weighted_inputs(obs);
    assert(v.len() == 2);
    assert(v[0].is_weightable() && v[1].is_weightable());
    assert(tighter.is_weightable() && wider.is_weightable());
    let ct = tighter.confidence_ticks();
    let cw = wider.confidence_ticks();
    lemma_sums_of_two(v);
    let pa = tighter.price_ticks();
    let pb = wider.price_ticks();
    let t = total_weight(v);
    let n = weighted_price_sum(v);
    assert(t == ct + cw);
    assert(n == pa * cw + pb * ct) by (nonlinear_arith)
        requires
            n == pa * cw + pb * ct || n == pb * ct + pa * cw,
    ;
    let q = rounded(n, t);
    vstd::arithmetic::div_mod::lemma_fundamental_div_mod(2 * n + t, 2 * t);
    vstd::arithmetic::div_mod::lemma_mod_bound(2 * n + t, 2 * t);
    assert((2 * t) * q <= 2 * n + t < (2 * t) * q + 2 * t);
    assert(2 * n - (pa + pb) * t == (pa - pb) * (cw - ct)) by (nonlinear_arith)
        requires
            t == ct + cw,
            n == pa * cw + pb * ct,
    ;
    if pa <= pb {
        assert(2 * n <= (pa + pb) * t && (ct < cw && pa < pb ==> 2 * n < (pa + pb) * t))
            by (nonlinear_arith)
            requires
                2 * n - (pa + pb) * t == (pa - pb) * (cw - ct),
                pa <= pb,
                ct <= cw,
        ;
        assert(pa <= q && q <= pb && 2 * q <= pa + pb + 1 && (2 * n < (pa + pb) * t ==> 2 * q <= pa
            + pb)) by (nonlinear_arith)
            requires
                t == ct + cw,
                n == pa * cw + pb * ct,
                0 < ct <= cw,
                pa <= pb,
                2 * n <= (pa + pb) * t,
                (2 * t) * q <= 2 * n + t < (2 * t) * q + 2 * t,
        ;
    }
    if pa >= pb {
        assert(2 * n >= (pa + pb) * t && (ct < cw && pa > pb ==> 2 * n > (pa + pb) * t))
            by (nonlinear_arith)
            requires
                2 * n - (pa + pb) * t == (pa - pb) * (cw - ct),
                pa >= pb,
                ct <= cw,
        ;
        assert(pb <= q && q <= pa && 2 * q >= pa + pb) by (nonlinear_arith)
            requires
                t == ct + cw,
                n == pa * cw + pb * ct,
                0 < ct <= cw,
                pa >= pb,
                2 * n >= (pa + pb) * t,
                (2 * t) * q <= 2 * n + t < (2 * t) * q + 2 * t,
        ;
    }
}

/// A consensus carries the tag of the policy that made it, and no tag of a
/// provider: what was derived can be told from what was observed.
pub proof fn theorem_consensus_is_tagged(obs: Seq<Observation>, policy: Policy)
    ensures
        consensus(obs, policy) matches Some(c) ==> c.source == match policy {
            Policy::Median => MEDIAN_SOURCE@,
            Policy::Weighted => WEIGHTED_SOURCE@,
        },
        MEDIAN_SOURCE@ != WEIGHTED_SOURCE@,
        MEDIAN_SOURCE@ != PYTH_SOURCE@ && WEIGHTED_SOURCE@ != PYTH_SOURCE@,
        MEDIAN_SOURCE@ != ATTACKER_SOURCE@ && WEIGHTED_SOURCE@ != ATTACKER_SOURCE@,
{
    reveal_strlit("consensus");
    reveal_strlit("weighted_consensus");
    reveal_strlit("pyth");
    reveal_strlit("MaliciousOracle");
    assert(MEDIAN_SOURCE@.len() == 9);
    assert(WEIGHTED_SOURCE@.len() == 18);
    assert(PYTH_SOURCE@.len() == 4);
    assert(ATTACKER_SOURCE@.len() == 15);
}

/// The median consensus carries the price in the middle of the finite
/// prices: with these sorted ascending, the price of the one in the middle
/// where their number is odd, and the mean of the two in the middle, rounded
/// down to a tick, where it is even. Either way it lies between the two.
pub proof fn theorem_median_is_the_middle(obs: Seq<Observation>)
    requires
        eligible(obs, Policy::Median).len() > 0,
    ensures
        ({
            let all = eligible(obs, Policy::Median);
            let s = sorted_by_price(all);
            let half = all.len() as int / 2;
            &&& ascending(s)
            &&& s.to_multiset() == all.to_multiset()
            &&& s.len() == all.len()
            &&& consensus(obs, Policy::Median) matches Some(c)
            &&& c.price matches Some(p)
            &&& all.len() % 2 == 1 ==> p == s[half].price_ticks()
            &&& all.len() % 2 == 0 ==> p == (s[half - 1].price_ticks() + s[half].price_ticks()) / 2
            &&& s[(all.len() - 1) / 2].price_ticks() <= p <= s[half].price_ticks()
        }),
{
    let all = eligible(obs, Policy::Median);
    theorem_sorted_ascends(all);
    lemma_sorted_permutes(all);
}

} // verus!
