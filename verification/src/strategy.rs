//! The order-ladder algorithm.
//!
//! A `Strategy` distributes a total order size and a total price offset over
//! `count` discrete steps.  Step `i` carries the amount weight
//! `i ^ amount_growth` and the price weight `i ^ price_growth`; amounts are
//! weights normalized by their sum and scaled by `total_amount`, prices are
//! the reference price plus the weight normalized by the *last* step's
//! weight and scaled by `price_delta`.  Pairs whose amount falls below
//! `min_size` are dropped.

use vstd::prelude::*;
use vstd::arithmetic::div_mod::{
    lemma_div_is_ordered,
    lemma_div_multiples_vanish,
    lemma_div_pos_is_pos,
    lemma_fundamental_div_mod,
    lemma_mod_bound,
};
use vstd::arithmetic::mul::{
    lemma_mul_inequality,
    lemma_mul_inequality_converse,
    lemma_mul_is_commutative,
    lemma_mul_is_distributive_add,
    lemma_mul_is_distributive_sub_other_way,
    lemma_mul_strict_inequality_converse,
};
use crate::dec::{Dec, SCALE, mul_div};
use crate::power::{spec_weight, weight, lemma_weight_base_monotone};
use crate::sums::{sum, units_view, lemma_sum_take_succ, lemma_sum_take_le, lemma_elem_le_sum};

verus! {

/// Why a ladder could not be built.
#[derive(Clone, Copy, Debug, PartialEq, Eq, Structural)]
pub enum StrategyError {
    /// The last price weight is zero, so the price normalizer divides by
    /// zero: a configuration error.
    Degenerate,
    /// A weight, a sum of weights or a price left the representable range.
    Overflow,
}

/// One rung of a computed ladder: an order size at a price.
#[derive(Clone, Copy, Debug, PartialEq, Eq, Structural)]
pub struct OrderSpec {
    pub amount: Dec,
    pub price: Dec,
}

/// Declarative ladder parameters, fixed at configuration time.
#[derive(Clone, Copy, Debug, PartialEq, Eq, Structural)]
pub struct Strategy {
    pub total_amount: Dec,
    pub min_size: Dec,
    pub price_delta: Dec,
    pub price_growth: Dec,
    pub amount_growth: Dec,
    pub count: i64,
}

/// Number of ladder steps: a non-positive count yields an empty ladder.
pub open spec fn spec_len(count: i64) -> int {
    if count >= 1 {
        count as int
    } else {
        0
    }
}

/// The weights of steps `1..=n` under the given growth exponent.
pub open spec fn spec_weights(n: int, growth_units: int) -> Seq<int> {
    Seq::new(
        (if n >= 0 {
            n
        } else {
            0
        }) as nat,
        |j: int| spec_weight(j + 1, growth_units),
    )
}

/// All weights of the first `n` steps fit in a unit count.
pub open spec fn weights_fit(n: int, growth_units: int) -> bool {
    forall|j: int| 0 <= j < n ==> #[trigger] spec_weight(j + 1, growth_units) <= i64::MAX
}

/// The amount-side weights of a strategy.
pub open spec fn amount_weights(s: Strategy) -> Seq<int> {
    spec_weights(spec_len(s.count), s.amount_growth.v())
}

/// The price-side weights of a strategy.
pub open spec fn price_weights(s: Strategy) -> Seq<int> {
    spec_weights(spec_len(s.count), s.price_growth.v())
}

/// One rung's amount: its weight's share of the total, truncated to units.
pub open spec fn spec_amount(w: int, total: int, s: int) -> int {
    (w * total) / s
}

/// The unfiltered amounts a weight sequence distributes a total over.
pub open spec fn amounts_of(ws: Seq<int>, total: int) -> Seq<int> {
    Seq::new(ws.len(), |j: int| spec_amount(ws[j], total, sum(ws)))
}

/// The unfiltered amount ladder of a strategy.
pub open spec fn spec_amounts(s: Strategy) -> Seq<int> {
    amounts_of(amount_weights(s), s.total_amount.v())
}

/// One rung's offset from the reference price: its weight's share of the
/// delta, normalized by the last weight, truncated toward zero.
pub open spec fn spec_offset(w: int, delta: int, wn: int) -> int {
    if delta >= 0 {
        (w * delta) / wn
    } else {
        -((w * -delta) / wn)
    }
}

/// The price ladder a weight sequence spans from `start` toward
/// `start + delta`.
pub open spec fn prices_of(ws: Seq<int>, start: int, delta: int) -> Seq<int> {
    Seq::new(ws.len(), |j: int| start + spec_offset(ws[j], delta, ws.last()))
}

/// The unfiltered price ladder of a strategy.
pub open spec fn spec_prices(s: Strategy, start: int) -> Seq<int> {
    prices_of(price_weights(s), start, s.price_delta.v())
}

/// The configuration error the algorithm rejects: a ladder with steps whose
/// last price weight vanishes.
pub open spec fn degenerate(s: Strategy) -> bool {
    &&& spec_len(s.count) >= 1
    &&& weights_fit(spec_len(s.count), s.price_growth.v())
    &&& price_weights(s).last() == 0
}

/// The amount side stays in range: every weight and their sum fit.
pub open spec fn amounts_ok(s: Strategy) -> bool {
    &&& weights_fit(spec_len(s.count), s.amount_growth.v())
    &&& sum(amount_weights(s)) <= i64::MAX
}

/// One price stays in range: magnitude of the offset and the shifted price.
pub open spec fn price_fits(w: int, start: int, delta: int, wn: int) -> bool {
    &&& (w * (if delta >= 0 {
        delta
    } else {
        -delta
    })) / wn <= i64::MAX
    &&& i64::MIN <= start + spec_offset(w, delta, wn) <= i64::MAX
}

/// The price side stays in range and its normalizer is positive.
pub open spec fn prices_ok(s: Strategy, start: int) -> bool {
    let ws = price_weights(s);
    &&& weights_fit(spec_len(s.count), s.price_growth.v())
    &&& (spec_len(s.count) >= 1 ==> ws.last() > 0)
    &&& forall|j: int|
        0 <= j < ws.len() ==> price_fits(#[trigger] ws[j], start, s.price_delta.v(), ws.last())
}

/// The amount/price pairs that survive the `min_size` filter, in step order.
pub open spec fn spec_ladder(amounts: Seq<int>, prices: Seq<int>, min: int) -> Seq<(int, int)>
    decreases amounts.len(),
{
    if amounts.len() == 0 {
        Seq::empty()
    } else {
        let rest = spec_ladder(amounts.drop_last(), prices.drop_last(), min);
        if amounts.last() >= min {
            rest.push((amounts.last(), prices.last()))
        } else {
            rest
        }
    }
}

/// A sequence of decimals seen as its exact unit values.
pub open spec fn dec_units(v: Seq<Dec>) -> Seq<int> {
    Seq::new(v.len(), |j: int| v[j].v())
}

/// A ladder seen as its exact (amount, price) unit values.
pub open spec fn orders_view(v: Seq<OrderSpec>) -> Seq<(int, int)> {
    Seq::new(v.len(), |j: int| (v[j].amount.v(), v[j].price.v()))
}

/// Computes the weights of steps `1..=count`; `None` when one of them does
/// not fit a unit count.
fn collect_weights(count: i64, growth_units: i64) -> (r: Option<Vec<i64>>)
    ensures
        (match r {
            Some(v) => {
                &&& v@.len() == spec_len(count)
                &&& forall|j: int|
                    0 <= j < v@.len() ==> #[trigger] v@[j] == spec_weight(j + 1, growth_units as int)
                        && 0 <= v@[j]
                &&& (count >= 1 ==> v@[0] == SCALE)
            },
            None => !weights_fit(spec_len(count), growth_units as int),
        }),
{
    let mut out: Vec<i64> = Vec::new();
    if count < 1 {
        return Some(out);
    }
    let n: u64 = count as u64;
    let mut i: u64 = 0;
    while i < n
        invariant
            0 <= i <= n,
            count >= 1,
            n == count,
            out@.len() == i,
            forall|j: int|
                0 <= j < out@.len() ==> #[trigger] out@[j] == spec_weight(j + 1, growth_units as int)
                    && 0 <= out@[j],
            i >= 1 ==> out@[0] == SCALE,
        decreases n - i,
    {
        let base = (i + 1) as i64;
        match weight(base, growth_units) {
            Some(w) => {
                out.push(w);
            },
            None => {
                proof {
                    let j: int = i as int;
                    assert(spec_weight(j + 1, growth_units as int) > i64::MAX);
                }
                return None;
            },
        }
        i = i + 1;
    }
    Some(out)
}

/// Sums computed weights; `None` when the sum does not fit a unit count.
fn sum_weights(ws: &Vec<i64>) -> (r: Option<i64>)
    requires
        forall|j: int| 0 <= j < ws@.len() ==> 0 <= #[trigger] ws@[j],
    ensures
        (match r {
            Some(s) => s == sum(units_view(ws@)) && s >= 0,
            None => sum(units_view(ws@)) > i64::MAX,
        }),
{
    let uv = Ghost(units_view(ws@));
    proof {
        assert forall|j: int| 0 <= j < uv@.len() implies uv@[j] >= 0 by {
            assert(uv@[j] == ws@[j]);
        }
    }
    let mut acc: i64 = 0;
    let mut k: usize = 0;
    while k < ws.len()
        invariant
            0 <= k <= ws@.len(),
            uv@ == units_view(ws@),
            forall|j: int| 0 <= j < ws@.len() ==> 0 <= #[trigger] ws@[j],
            forall|j: int| 0 <= j < uv@.len() ==> uv@[j] >= 0,
            acc == sum(uv@.take(k as int)),
            acc >= 0,
        decreases ws@.len() - k,
    {
        proof {
            lemma_sum_take_succ(uv@, k as int);
        }
        match acc.checked_add(ws[k]) {
            Some(next) => {
                acc = next;
            },
            None => {
                proof {
                    lemma_sum_take_le(uv@, k as int + 1);
                }
                return None;
            },
        }
        k = k + 1;
    }
    proof {
        assert(uv@.take(ws@.len() as int) =~= uv@);
    }
    Some(acc)
}

impl Strategy {
    /// The unfiltered amount ladder: each step's power-law weight times the
    /// total, divided by the sum of all weights.  `Overflow` exactly when a
    /// weight or the weight sum leaves the representable range.
    pub fn order_amounts(&self) -> (r: Result<Vec<Dec>, StrategyError>)
        requires
            self.total_amount.v() >= 0,
        ensures
            (match r {
                Ok(v) => {
                    &&& amounts_ok(*self)
                    &&& v@.len() == spec_len(self.count)
                    &&& forall|j: int|
                        0 <= j < v@.len() ==> (#[trigger] v@[j]).v() == spec_amounts(*self)[j]
                            && 0 <= v@[j].v() <= self.total_amount.v()
                    &&& (self.count >= 1 ==> self.total_amount.v() - self.count < sum(
                        dec_units(v@),
                    ) <= self.total_amount.v())
                },
                Err(e) => e == StrategyError::Overflow && !amounts_ok(*self),
            }),
    {
        let g = self.amount_growth.units;
        let ghost wspec = amount_weights(*self);
        let mut out: Vec<Dec> = Vec::new();
        if self.count < 1 {
            proof {
                assert(wspec =~= Seq::<int>::empty());
            }
            return Ok(out);
        }
        let ws = match collect_weights(self.count, g) {
            Some(ws) => ws,
            None => {
                return Err(StrategyError::Overflow);
            },
        };
        proof {
            assert(units_view(ws@) =~= wspec);
            assert forall|j: int| 0 <= j < spec_len(self.count) implies #[trigger] spec_weight(
                j + 1,
                self.amount_growth.v(),
            ) <= i64::MAX by {
                assert(ws@[j] == spec_weight(j + 1, self.amount_growth.v()));
            }
        }
        let total = match sum_weights(&ws) {
            Some(t) => t,
            None => {
                return Err(StrategyError::Overflow);
            },
        };
        proof {
            lemma_elem_le_sum(units_view(ws@), 0);
        }
        let t_units = self.total_amount.units;
        let mut k: usize = 0;
        while k < ws.len()
            invariant
                0 <= k <= ws@.len(),
                ws@.len() == spec_len(self.count),
                wspec == amount_weights(*self),
                units_view(ws@) == wspec,
                forall|j: int|
                    0 <= j < ws@.len() ==> #[trigger] ws@[j] == spec_weight(
                        j + 1,
                        self.amount_growth.v(),
                    ) && 0 <= ws@[j],
                total == sum(wspec),
                total >= SCALE,
                t_units == self.total_amount.v(),
                t_units >= 0,
                out@.len() == k,
                forall|j: int|
                    0 <= j < k ==> (#[trigger] out@[j]).v() == spec_amounts(*self)[j] && 0
                        <= out@[j].v() <= t_units,
            decreases ws@.len() - k,
        {
            proof {
                lemma_elem_le_sum(wspec, k as int);
                lemma_mul_inequality(wspec[k as int], sum(wspec), t_units as int);
                lemma_mul_is_commutative(sum(wspec), t_units as int);
                lemma_div_is_ordered(
                    wspec[k as int] * t_units,
                    sum(wspec) * t_units,
                    sum(wspec),
                );
                lemma_div_multiples_vanish(t_units as int, sum(wspec));
                vstd::arithmetic::mul::lemma_mul_nonnegative(wspec[k as int], t_units as int);
                lemma_div_pos_is_pos(wspec[k as int] * t_units, sum(wspec));
            }
            match mul_div(ws[k], t_units, total) {
                Some(a) => {
                    out.push(Dec { units: a });
                },
                None => {
                    return Err(StrategyError::Overflow);
                },
            }
            k = k + 1;
        }
        proof {
            assert forall|j: int| 0 <= j < wspec.len() implies wspec[j] >= 0 by {
                assert(ws@[j] == spec_weight(j + 1, self.amount_growth.v()));
            }
            lemma_amounts_conservation(wspec, self.total_amount.v());
            assert(dec_units(out@) =~= spec_amounts(*self));
        }
        Ok(out)
    }

    /// The unfiltered price ladder from `start`: each step's power-law
    /// weight, normalized by the last step's weight and scaled by
    /// `price_delta`, added to `start`.  The last price is exactly
    /// `start + price_delta`.  `Degenerate` exactly when the normalizer is
    /// zero; `Overflow` exactly when a weight or a price leaves the range.
    pub fn order_prices(&self, start: Dec) -> (r: Result<Vec<Dec>, StrategyError>)
        requires
            self.price_delta.v() != i64::MIN,
        ensures
            (match r {
                Ok(v) => {
                    &&& prices_ok(*self, start.v())
                    &&& v@.len() == spec_len(self.count)
                    &&& forall|j: int|
                        0 <= j < v@.len() ==> (#[trigger] v@[j]).v() == spec_prices(
                            *self,
                            start.v(),
                        )[j]
                    &&& (spec_len(self.count) >= 1 ==> v@.last().v() == start.v()
                        + self.price_delta.v())
                },
                Err(e) => (match e {
                    StrategyError::Degenerate => degenerate(*self),
                    StrategyError::Overflow => !prices_ok(*self, start.v()) && !degenerate(*self),
                }),
            }),
    {
        let g = self.price_growth.units;
        let delta = self.price_delta.units;
        let ghost wspec = price_weights(*self);
        let mut out: Vec<Dec> = Vec::new();
        if self.count < 1 {
            proof {
                assert(wspec =~= Seq::<int>::empty());
            }
            return Ok(out);
        }
        let ws = match collect_weights(self.count, g) {
            Some(ws) => ws,
            None => {
                return Err(StrategyError::Overflow);
            },
        };
        proof {
            assert(units_view(ws@) =~= wspec);
            assert forall|j: int| 0 <= j < spec_len(self.count) implies #[trigger] spec_weight(
                j + 1,
                self.price_growth.v(),
            ) <= i64::MAX by {
                assert(ws@[j] == spec_weight(j + 1, self.price_growth.v()));
            }
        }
        let wn = ws[ws.len() - 1];
        proof {
            assert(wn == wspec[ws@.len() - 1]);
            assert(wn == wspec.last());
        }
        if wn == 0 {
            return Err(StrategyError::Degenerate);
        }
        let d_abs: i64 = if delta >= 0 {
            delta
        } else {
            -delta
        };
        let mut k: usize = 0;
        while k < ws.len()
            invariant
                0 <= k <= ws@.len(),
                ws@.len() == spec_len(self.count),
                spec_len(self.count) >= 1,
                wspec == price_weights(*self),
                units_view(ws@) == wspec,
                forall|j: int| 0 <= j < ws@.len() ==> 0 <= #[trigger] ws@[j],
                wn == wspec.last(),
                wn > 0,
                delta == self.price_delta.v(),
                delta != i64::MIN,
                d_abs == (if delta >= 0 {
                    delta as int
                } else {
                    -(delta as int)
                }),
                out@.len() == k,
                forall|j: int|
                    0 <= j < k ==> (#[trigger] out@[j]).v() == spec_prices(*self, start.v())[j]
                        && price_fits(wspec[j], start.v(), delta as int, wspec.last()),
            decreases ws@.len() - k,
        {
            let o = match mul_div(ws[k], d_abs, wn) {
                Some(o) => o,
                None => {
                    proof {
                        assert(!price_fits(wspec[k as int], start.v(), delta as int, wspec.last()));
                    }
                    return Err(StrategyError::Overflow);
                },
            };
            let price_units = if delta >= 0 {
                match start.units.checked_add(o) {
                    Some(p) => p,
                    None => {
                        proof {
                            assert(!price_fits(
                                wspec[k as int],
                                start.v(),
                                delta as int,
                                wspec.last(),
                            ));
                        }
                        return Err(StrategyError::Overflow);
                    },
                }
            } else {
                match start.units.checked_sub(o) {
                    Some(p) => p,
                    None => {
                        proof {
                            assert(!price_fits(
                                wspec[k as int],
                                start.v(),
                                delta as int,
                                wspec.last(),
                            ));
                        }
                        return Err(StrategyError::Overflow);
                    },
                }
            };
            out.push(Dec { units: price_units });
            k = k + 1;
        }
        proof {
            lemma_mul_is_commutative(wspec.last(), delta as int);
            lemma_mul_is_commutative(wspec.last(), -(delta as int));
            lemma_div_multiples_vanish(delta as int, wspec.last());
            lemma_div_multiples_vanish(-(delta as int), wspec.last());
            assert(spec_offset(wspec.last(), delta as int, wspec.last()) == delta as int);
            assert(wspec[wspec.len() - 1] == wspec.last());
            assert(out@.last().v() == spec_prices(*self, start.v())[wspec.len() - 1]);
            assert forall|j: int| 0 <= j < price_weights(*self).len() implies price_fits(
                #[trigger] price_weights(*self)[j],
                start.v(),
                self.price_delta.v(),
                price_weights(*self).last(),
            ) by {
                assert(out@[j].v() == spec_prices(*self, start.v())[j]);
                assert(price_fits(wspec[j], start.v(), delta as int, wspec.last()));
            }
        }
        Ok(out)
    }

    /// Builds the ladder: amounts and prices paired by step, pairs whose
    /// amount falls below `min_size` dropped, step order preserved.  Every
    /// returned amount is at least `min_size`.
    pub fn build_orders(&self, start: Dec) -> (r: Result<Vec<OrderSpec>, StrategyError>)
        requires
            self.total_amount.v() >= 0,
            self.price_delta.v() != i64::MIN,
        ensures
            (match r {
                Ok(v) => {
                    &&& prices_ok(*self, start.v())
                    &&& amounts_ok(*self)
                    &&& orders_view(v@) == spec_ladder(
                        spec_amounts(*self),
                        spec_prices(*self, start.v()),
                        self.min_size.v(),
                    )
                    &&& forall|j: int|
                        0 <= j < v@.len() ==> (#[trigger] v@[j]).amount.v() >= self.min_size.v()
                },
                Err(e) => (match e {
                    StrategyError::Degenerate => degenerate(*self),
                    StrategyError::Overflow => !(prices_ok(*self, start.v()) && amounts_ok(*self))
                        && !degenerate(*self),
                }),
            }),
    {
        let prices = match self.order_prices(start) {
            Ok(p) => p,
            Err(e) => {
                return Err(e);
            },
        };
        let amounts = match self.order_amounts() {
            Ok(a) => a,
            Err(e) => {
                return Err(e);
            },
        };
        let ghost aspec = spec_amounts(*self);
        let ghost pspec = spec_prices(*self, start.v());
        let mut out: Vec<OrderSpec> = Vec::new();
        let mut k: usize = 0;
        while k < amounts.len()
            invariant
                0 <= k <= amounts@.len(),
                amounts@.len() == spec_len(self.count),
                prices@.len() == spec_len(self.count),
                aspec == spec_amounts(*self),
                pspec == spec_prices(*self, start.v()),
                aspec.len() == spec_len(self.count),
                pspec.len() == spec_len(self.count),
                forall|j: int|
                    0 <= j < amounts@.len() ==> (#[trigger] amounts@[j]).v() == aspec[j],
                forall|j: int| 0 <= j < prices@.len() ==> (#[trigger] prices@[j]).v() == pspec[j],
                orders_view(out@) == spec_ladder(
                    aspec.take(k as int),
                    pspec.take(k as int),
                    self.min_size.v(),
                ),
                forall|j: int|
                    0 <= j < out@.len() ==> (#[trigger] out@[j]).amount.v() >= self.min_size.v(),
            decreases amounts@.len() - k,
        {
            proof {
                assert(aspec.take(k as int + 1).drop_last() =~= aspec.take(k as int));
                assert(pspec.take(k as int + 1).drop_last() =~= pspec.take(k as int));
            }
            let a = amounts[k];
            if self.min_size.le(&a) {
                let o = OrderSpec { amount: a, price: prices[k] };
                out.push(o);
                proof {
                    assert(orders_view(out@) =~= spec_ladder(
                        aspec.take(k as int + 1),
                        pspec.take(k as int + 1),
                        self.min_size.v(),
                    ));
                }
            } else {
                proof {
                    assert(orders_view(out@) =~= spec_ladder(
                        aspec.take(k as int + 1),
                        pspec.take(k as int + 1),
                        self.min_size.v(),
                    ));
                }
            }
            k = k + 1;
        }
        proof {
            assert(aspec.take(aspec.len() as int) =~= aspec);
            assert(pspec.take(pspec.len() as int) =~= pspec);
        }
        Ok(out)
    }
}

/// Walks the conservation bound rung by rung: scaling the partial amount
/// sum by the divisor stays within one divisor-rounding of the scaled
/// partial weight sum.
proof fn lemma_conservation_rec(ws: Seq<int>, total: int, j: int)
    requires
        0 <= j <= ws.len(),
        forall|k: int| 0 <= k < ws.len() ==> ws[k] >= 0,
        sum(ws) > 0,
        total >= 0,
    ensures
        sum(ws) * sum(amounts_of(ws, total).take(j)) <= total * sum(ws.take(j)),
        sum(ws) * sum(amounts_of(ws, total).take(j)) >= total * sum(ws.take(j)) - j * (sum(ws)
            - 1),
    decreases j,
{
    let s = sum(ws);
    let a = amounts_of(ws, total);
    if j == 0 {
        assert(a.take(0) =~= Seq::<int>::empty());
        assert(ws.take(0) =~= Seq::<int>::empty());
    } else {
        lemma_conservation_rec(ws, total, j - 1);
        lemma_sum_take_succ(a, j - 1);
        lemma_sum_take_succ(ws, j - 1);
        let w = ws[j - 1];
        let q = (w * total) / s;
        let m = (w * total) % s;
        lemma_fundamental_div_mod(w * total, s);
        lemma_mod_bound(w * total, s);
        assert(a[j - 1] == q);
        lemma_mul_is_distributive_add(s, sum(a.take(j - 1)), q);
        lemma_mul_is_distributive_add(total, sum(ws.take(j - 1)), w);
        lemma_mul_is_commutative(total, w);
        assert(s * q == w * total - m);
        assert((j - 1) * (s - 1) + (s - 1) == j * (s - 1)) by (nonlinear_arith);
    }
}

/// Conservation: distributing a nonnegative total across a weight ladder
/// with a positive weight sum never overshoots the total and loses less
/// than one unit per rung to truncation, whatever the weights are.
pub proof fn lemma_amounts_conservation(ws: Seq<int>, total: int)
    requires
        ws.len() >= 1,
        forall|k: int| 0 <= k < ws.len() ==> ws[k] >= 0,
        sum(ws) > 0,
        total >= 0,
    ensures
        sum(amounts_of(ws, total)) <= total,
        sum(amounts_of(ws, total)) > total - ws.len(),
{
    let s = sum(ws);
    let a = amounts_of(ws, total);
    let n = ws.len() as int;
    lemma_conservation_rec(ws, total, n);
    assert(ws.take(n) =~= ws);
    assert(a.take(n) =~= a);
    lemma_mul_is_commutative(total, s);
    assert(s * sum(a) <= s * total);
    lemma_mul_is_commutative(s, sum(a));
    lemma_mul_is_commutative(s, total);
    lemma_mul_inequality_converse(sum(a), total, s);
    assert(s * sum(a) >= total * s - n * (s - 1));
    assert(n * s - n * (s - 1) == n) by (nonlinear_arith);
    assert(total * s - n * (s - 1) > total * s - n * s);
    lemma_mul_is_distributive_sub_other_way(s, total, n);
    assert(s * sum(a) > s * (total - n));
    lemma_mul_is_commutative(s, sum(a));
    lemma_mul_is_commutative(s, total - n);
    lemma_mul_strict_inequality_converse(total - n, sum(a), s);
}

/// Conservation for a strategy with a whole-number amount-growth exponent:
/// its unfiltered amount ladder sums into `(total - count, total]`.
pub proof fn lemma_strategy_conservation(s: Strategy)
    requires
        s.count >= 1,
        s.total_amount.v() >= 0,
        s.amount_growth.v() >= 0,
        s.amount_growth.v() % (SCALE as int) == 0,
    ensures
        sum(spec_amounts(s)) <= s.total_amount.v(),
        sum(spec_amounts(s)) > s.total_amount.v() - s.count,
{
    let ws = amount_weights(s);
    assert forall|k: int| 0 <= k < ws.len() implies ws[k] >= 0 by {
        crate::power::lemma_weight_integral_nonneg(k + 1, s.amount_growth.v());
    }
    crate::power::lemma_weight_integral_first(s.amount_growth.v());
    assert(ws[0] == SCALE);
    lemma_elem_le_sum(ws, 0);
    lemma_amounts_conservation(ws, s.total_amount.v());
}

/// Endpoint anchoring: with a positive last weight, the final rung's price
/// is exactly `start + delta`.
pub proof fn lemma_endpoint_anchoring(ws: Seq<int>, start: int, delta: int)
    requires
        ws.len() >= 1,
        ws.last() > 0,
    ensures
        prices_of(ws, start, delta).last() == start + delta,
{
    let wn = ws.last();
    lemma_mul_is_commutative(wn, delta);
    lemma_mul_is_commutative(wn, -delta);
    lemma_div_multiples_vanish(delta, wn);
    lemma_div_multiples_vanish(-delta, wn);
    assert(spec_offset(ws[ws.len() - 1], delta, wn) == delta);
}

/// Directionality: wherever the weight ladder does not decrease between two
/// rungs, a nonnegative delta keeps their prices in nondecreasing order and
/// a nonpositive delta in nonincreasing order.
pub proof fn lemma_price_directionality(ws: Seq<int>, start: int, delta: int, a: int, b: int)
    requires
        0 <= a <= b < ws.len(),
        0 <= ws[a] <= ws[b],
        ws.last() > 0,
        delta != i64::MIN,
    ensures
        delta >= 0 ==> prices_of(ws, start, delta)[a] <= prices_of(ws, start, delta)[b],
        delta <= 0 ==> prices_of(ws, start, delta)[a] >= prices_of(ws, start, delta)[b],
{
    let wn = ws.last();
    if delta >= 0 {
        lemma_mul_inequality(ws[a], ws[b], delta);
        lemma_div_is_ordered(ws[a] * delta, ws[b] * delta, wn);
    } else {
        lemma_mul_inequality(ws[a], ws[b], -delta);
        lemma_div_is_ordered(ws[a] * -delta, ws[b] * -delta, wn);
    }
    if delta == 0 {
        vstd::arithmetic::div_mod::lemma_div_of0(wn);
        assert(ws[a] * 0 == 0);
        assert(ws[b] * 0 == 0);
    }
}

/// Directionality of a strategy with a whole-number price-growth exponent:
/// bid-side ladders (negative delta) walk prices down from the reference,
/// ask-side ladders (positive delta) walk them up.
pub proof fn lemma_strategy_directionality(s: Strategy, start: int, a: int, b: int)
    requires
        s.price_growth.v() >= 0,
        s.price_growth.v() % (SCALE as int) == 0,
        0 <= a <= b < price_weights(s).len(),
        price_weights(s).last() > 0,
        s.price_delta.v() != i64::MIN,
    ensures
        s.price_delta.v() >= 0 ==> spec_prices(s, start)[a] <= spec_prices(s, start)[b],
        s.price_delta.v() <= 0 ==> spec_prices(s, start)[a] >= spec_prices(s, start)[b],
{
    let ws = price_weights(s);
    crate::power::lemma_weight_integral_nonneg(a + 1, s.price_growth.v());
    lemma_weight_base_monotone(a + 1, b + 1, s.price_growth.v());
    lemma_price_directionality(ws, start, s.price_delta.v(), a, b);
}

} // verus!
