use vstd::prelude::*;
use vstd::arithmetic::div_mod::{
    lemma_div_is_ordered, lemma_div_multiples_vanish, lemma_fundamental_div_mod,
    lemma_fundamental_div_mod_converse_div,
};
use vstd::arithmetic::mul::lemma_mul_inequality;
use crate::errors::CustomError;

verus! {

/// A step-price curve: the price of a unit is constant within a step of
/// `step_size` units and rises by `price_increment` from one step to the next.
#[derive(Clone, Copy, Debug)]
pub struct StepCurve {
    /// Units per pricing step.
    pub step_size: u64,
    /// Price of a unit in the first step.
    pub base_price: u64,
    /// Rise of the unit price at each step boundary.
    pub price_increment: u64,
}

impl StepCurve {
    /// A curve has steps of at least one unit.
    pub open spec fn wf(&self) -> bool {
        self.step_size > 0
    }

    /// Index of the step that supply position `s` lies in.
    pub open spec fn step_of(&self, s: nat) -> nat {
        s / (self.step_size as nat)
    }

    /// Price of the unit at supply position `s`.
    pub open spec fn unit_price(&self, s: nat) -> nat {
        self.base_price as nat + self.step_of(s) * (self.price_increment as nat)
    }

    /// Cost of the `q` units at positions `s0 .. s0 + q`, summed upward from
    /// `s0`.
    pub open spec fn range_cost(&self, s0: nat, q: nat) -> nat
        decreases q,
    {
        if q == 0 {
            0
        } else {
            self.unit_price(s0) + self.range_cost(s0 + 1, (q - 1) as nat)
        }
    }

    /// Revenue of the `q` units just below position `top`, summed downward
    /// from `top`.
    pub open spec fn vacated_cost(&self, top: nat, q: nat) -> nat
        decreases q,
    {
        if q == 0 || top == 0 {
            0
        } else {
            self.unit_price((top - 1) as nat) + self.vacated_cost((top - 1) as nat, (q - 1) as nat)
        }
    }

    /// Average unit price of the `q` units from `s0` upward, rounded down.
    pub open spec fn average_price(&self, s0: nat, q: nat) -> nat
        recommends
            q > 0,
    {
        self.range_cost(s0, q) / q
    }

    /// Average unit price of the `q` units below `top`, rounded down.
    pub open spec fn average_vacated_price(&self, top: nat, q: nat) -> nat
        recommends
            q > 0,
    {
        self.vacated_cost(top, q) / q
    }

    /// The `q` units from `s0` upward all lie in one step.
    pub open spec fn within_one_step(&self, s0: nat, q: nat) -> bool {
        q > 0 && self.step_of(s0) == self.step_of((s0 + q - 1) as nat)
    }

    /// The curve that pools trade on: steps of 1000 units, a first price of
    /// 1000, a rise of 10000 per step.
    pub fn reference() -> (curve: Self)
        ensures
            curve == reference_curve(),
            curve.wf(),
    {
        StepCurve { step_size: 1000, base_price: 1000, price_increment: 10_000 }
    }

    /// The unit price at `supply`, or `None` where it leaves the range of the
    /// wide accumulator.
    fn step_price(&self, supply: u128) -> (res: Option<u128>)
        requires
            self.wf(),
        ensures
            match res {
                Some(price) => price == self.unit_price(supply as nat),
                None => self.unit_price(supply as nat) > u128::MAX,
            },
    {
        let step: u128 = supply / (self.step_size as u128);
        match step.checked_mul(self.price_increment as u128) {
            Some(rise) => (self.base_price as u128).checked_add(rise),
            None => None,
        }
    }

    /// Average unit price, rounded down, of buying `amount` units when
    /// `current_supply` units are sold: the exact sum of the unit prices at
    /// the positions `current_supply .. current_supply + amount`, divided by
    /// `amount`. Fails with `Overflow` exactly when that average does not fit
    /// in 64 bits, which covers every overflow of the 128-bit accumulator.
    pub fn buy_price(&self, current_supply: u64, amount: u64) -> (res: Result<u64, CustomError>)
        requires
            self.wf(),
            amount > 0,
        ensures
            match res {
                Ok(price) => price == self.average_price(current_supply as nat, amount as nat),
                Err(e) => e == CustomError::Overflow && self.average_price(
                    current_supply as nat,
                    amount as nat,
                ) > u64::MAX,
            },
    {
        let step_size: u128 = self.step_size as u128;
        let ghost s0: nat = current_supply as nat;
        let ghost q: nat = amount as nat;
        let mut cost: u128 = 0;
        let mut remaining: u64 = amount;
        let mut supply: u128 = current_supply as u128;
        while remaining > 0
            invariant
                self.wf(),
                step_size == self.step_size,
                s0 == current_supply,
                q == amount,
                0 < amount,
                remaining <= amount,
                supply == current_supply + (amount - remaining),
                cost == self.range_cost(s0, (amount - remaining) as nat),
            decreases remaining,
        {
            let ghost done: nat = (amount - remaining) as nat;
            let price: u128 = match self.step_price(supply) {
                Some(price) => price,
                None => {
                    proof {
                        assert(self.range_cost(supply as nat + 1, 0) == 0);
                        assert(self.range_cost(supply as nat, 1) == self.unit_price(supply as nat));
                        self.lemma_range_cost_part(s0, done, 1, q);
                        lemma_wide_total_has_wide_average(self.range_cost(s0, q), q);
                    }
                    return Err(CustomError::Overflow);
                },
            };
            let offset: u128 = supply % step_size;
            let to_boundary: u128 = step_size - offset;
            let tokens: u64 = if to_boundary < remaining as u128 {
                to_boundary as u64
            } else {
                remaining
            };
            proof {
                self.lemma_same_step(supply as nat, tokens as nat);
                self.lemma_range_cost_one_step(supply as nat, tokens as nat);
                self.lemma_range_cost_part(s0, done, tokens as nat, q);
                self.lemma_range_cost_split(s0, done, tokens as nat);
            }
            let term: u128 = match price.checked_mul(tokens as u128) {
                Some(term) => term,
                None => {
                    proof {
                        assert(tokens as nat * self.unit_price(supply as nat) == price * tokens)
                            by (nonlinear_arith)
                            requires
                                price == self.unit_price(supply as nat),
                        ;
                        lemma_wide_total_has_wide_average(self.range_cost(s0, q), q);
                    }
                    return Err(CustomError::Overflow);
                },
            };
            assert(term == self.range_cost(supply as nat, tokens as nat)) by (nonlinear_arith)
                requires
                    term == price * tokens,
                    price == self.unit_price(supply as nat),
                    self.range_cost(supply as nat, tokens as nat) == tokens as nat
                        * self.unit_price(supply as nat),
            ;
            cost = match cost.checked_add(term) {
                Some(sum) => sum,
                None => {
                    proof {
                        lemma_wide_total_has_wide_average(self.range_cost(s0, q), q);
                    }
                    return Err(CustomError::Overflow);
                },
            };
            remaining -= tokens;
            supply += tokens as u128;
        }
        let average: u128 = cost / (amount as u128);
        if average > u64::MAX as u128 {
            Err(CustomError::Overflow)
        } else {
            Ok(average as u64)
        }
    }

    /// The closed form of a quote: where the `amount` units from
    /// `supply_after` upward lie within one step, their average price is that
    /// step's unit price. `None` where they span a boundary, where `amount` is
    /// zero, or where the price does not fit in 64 bits.
    pub fn closed_form_price(&self, supply_after: u64, amount: u64) -> (res: Option<u64>)
        requires
            self.wf(),
        ensures
            res is Some <==> self.within_one_step(supply_after as nat, amount as nat)
                && self.unit_price(supply_after as nat) <= u64::MAX,
            res is Some ==> res.unwrap() == self.unit_price(supply_after as nat),
    {
        if amount == 0 {
            return None;
        }
        let step_size: u128 = self.step_size as u128;
        let floor: u128 = supply_after as u128;
        let last: u128 = floor + (amount as u128 - 1);
        if floor / step_size != last / step_size {
            return None;
        }
        match self.step_price(floor) {
            Some(price) => if price <= u64::MAX as u128 {
                Some(price as u64)
            } else {
                None
            },
            None => None,
        }
    }

    /// Average unit price, rounded down, of selling `amount` units down to
    /// `supply_after`: the exact sum of the unit prices at the positions
    /// vacated, taken downward from `supply_after + amount`, divided by
    /// `amount`. A sale within one step is answered by the closed form without
    /// a loop. Fails with `Overflow` exactly when the average does not fit in
    /// 64 bits, which covers every overflow of the 128-bit accumulator.
    pub fn sell_price(&self, supply_after: u64, amount: u64) -> (res: Result<u64, CustomError>)
        requires
            self.wf(),
            amount > 0,
        ensures
            match res {
                Ok(price) => price == self.average_vacated_price(
                    (supply_after + amount) as nat,
                    amount as nat,
                ),
                Err(e) => e == CustomError::Overflow && self.average_vacated_price(
                    (supply_after + amount) as nat,
                    amount as nat,
                ) > u64::MAX,
            },
    {
        let ghost s0: nat = supply_after as nat;
        let ghost q: nat = amount as nat;
        proof {
            self.lemma_vacated_cost_is_range_cost(s0, q);
        }
        if let Some(price) = self.closed_form_price(supply_after, amount) {
            proof {
                self.lemma_closed_form_average(s0, q);
            }
            return Ok(price);
        }
        let step_size: u128 = self.step_size as u128;
        let mut revenue: u128 = 0;
        let mut remaining: u64 = amount;
        let mut current: u128 = supply_after as u128 + amount as u128;
        while remaining > 0
            invariant
                self.wf(),
                step_size == self.step_size,
                s0 == supply_after,
                q == amount,
                0 < amount,
                remaining <= amount,
                current == supply_after + remaining,
                revenue == self.range_cost(current as nat, (amount - remaining) as nat),
                self.vacated_cost(s0 + q, q) == self.range_cost(s0, q),
            decreases remaining,
        {
            let ghost done: nat = (amount - remaining) as nat;
            let top_unit: u128 = current - 1;
            let offset: u128 = top_unit % step_size;
            let in_step: u128 = offset + 1;
            let tokens: u64 = if in_step < remaining as u128 {
                in_step as u64
            } else {
                remaining
            };
            let ghost low: nat = (current - tokens) as nat;
            let ghost skip: nat = (remaining - tokens) as nat;
            proof {
                self.lemma_same_step_below(current as nat, tokens as nat);
                self.lemma_range_cost_one_step(low, tokens as nat);
                self.lemma_range_cost_split(low, tokens as nat, done);
                self.lemma_range_cost_part(s0, skip, tokens as nat, q);
                self.lemma_range_cost_part(s0, skip, tokens as nat + done, q);
                assert(s0 + skip == low);
                assert(low + tokens as nat == current as nat);
            }
            let price: u128 = match self.step_price(top_unit) {
                Some(price) => price,
                None => {
                    proof {
                        assert(self.unit_price(low) <= tokens as nat * self.unit_price(low))
                            by (nonlinear_arith)
                            requires
                                tokens >= 1,
                        ;
                        lemma_wide_total_has_wide_average(self.range_cost(s0, q), q);
                    }
                    return Err(CustomError::Overflow);
                },
            };
            let term: u128 = match price.checked_mul(tokens as u128) {
                Some(term) => term,
                None => {
                    proof {
                        assert(tokens as nat * self.unit_price(low) == price * tokens)
                            by (nonlinear_arith)
                            requires
                                price == self.unit_price(low),
                        ;
                        lemma_wide_total_has_wide_average(self.range_cost(s0, q), q);
                    }
                    return Err(CustomError::Overflow);
                },
            };
            assert(term == self.range_cost(low, tokens as nat)) by (nonlinear_arith)
                requires
                    term == price * tokens,
                    price == self.unit_price(low),
                    self.range_cost(low, tokens as nat) == tokens as nat * self.unit_price(low),
            ;
            revenue = match revenue.checked_add(term) {
                Some(sum) => sum,
                None => {
                    proof {
                        lemma_wide_total_has_wide_average(self.range_cost(s0, q), q);
                    }
                    return Err(CustomError::Overflow);
                },
            };
            remaining -= tokens;
            current -= tokens as u128;
        }
        let average: u128 = revenue / (amount as u128);
        if average > u64::MAX as u128 {
            Err(CustomError::Overflow)
        } else {
            Ok(average as u64)
        }
    }

    /// The units from `s` up to the next step boundary share the step of `s`.
    proof fn lemma_same_step(&self, s: nat, t: nat)
        requires
            self.wf(),
            0 < t <= self.step_size - s % (self.step_size as nat),
        ensures
            self.within_one_step(s, t),
    {
        let d = self.step_size as int;
        lemma_fundamental_div_mod(s as int, d);
        let k = s as int / d;
        let r = s as int % d + t - 1;
        assert(s + t - 1 == k * d + r) by (nonlinear_arith)
            requires
                s == d * k + (s as int % d),
                r == s as int % d + t - 1,
        ;
        lemma_fundamental_div_mod_converse_div(s + t - 1, d, k, r);
    }

    /// The units from `top - 1` down to the start of its step share one step.
    proof fn lemma_same_step_below(&self, top: nat, t: nat)
        requires
            self.wf(),
            top > 0,
            0 < t <= (top - 1) % (self.step_size as int) + 1,
        ensures
            t <= top,
            self.within_one_step((top - t) as nat, t),
            self.unit_price((top - t) as nat) == self.unit_price((top - 1) as nat),
    {
        let d = self.step_size as int;
        let x = top - 1;
        lemma_fundamental_div_mod(x, d);
        let k = x / d;
        let r = x % d - (t - 1);
        assert(d * k >= 0) by (nonlinear_arith)
            requires
                d > 0,
                k >= 0,
        ;
        assert(top - t == k * d + r) by (nonlinear_arith)
            requires
                x == d * k + (x % d),
                r == x % d - (t - 1),
                x == top - 1,
        ;
        lemma_fundamental_div_mod_converse_div(top - t, d, k, r);
        assert((top - t + t - 1) as nat == x);
    }

    /// The step index does not fall as the position rises.
    pub proof fn lemma_step_of_monotonic(&self, s: nat, t: nat)
        requires
            self.wf(),
            s <= t,
        ensures
            self.step_of(s) <= self.step_of(t),
    {
        lemma_div_is_ordered(s as int, t as int, self.step_size as int);
    }

    /// The unit price never falls as the supply position rises.
    pub proof fn lemma_unit_price_monotonic(&self, s: nat, t: nat)
        requires
            self.wf(),
            s <= t,
        ensures
            self.unit_price(s) <= self.unit_price(t),
    {
        self.lemma_step_of_monotonic(s, t);
        lemma_mul_inequality(
            self.step_of(s) as int,
            self.step_of(t) as int,
            self.price_increment as int,
        );
    }

    /// At the start of step `k` the unit price is exactly the base price
    /// plus `k` increments.
    pub proof fn lemma_unit_price_at_boundary(&self, k: nat)
        requires
            self.wf(),
        ensures
            self.unit_price(k * (self.step_size as nat)) == self.base_price + k
                * self.price_increment,
    {
        let d = self.step_size as int;
        lemma_div_multiples_vanish(k as int, d);
        assert(k * (self.step_size as nat) == d * (k as int)) by (nonlinear_arith)
            requires
                d == self.step_size as nat,
        ;
    }

    /// A range of `m + n` units costs what its first `m` and its last `n`
    /// units cost together.
    pub proof fn lemma_range_cost_split(&self, s0: nat, m: nat, n: nat)
        ensures
            self.range_cost(s0, m + n) == self.range_cost(s0, m) + self.range_cost(s0 + m, n),
        decreases m,
    {
        if m > 0 {
            self.lemma_range_cost_split(s0 + 1, (m - 1) as nat, n);
            assert((m + n - 1) as nat == (m - 1) as nat + n);
            assert(s0 + 1 + (m - 1) as nat == s0 + m);
        }
    }

    /// Part of a range costs no more than the whole range.
    pub proof fn lemma_range_cost_part(&self, s0: nat, skip: nat, part: nat, q: nat)
        requires
            skip + part <= q,
        ensures
            self.range_cost(s0, skip) + self.range_cost(s0 + skip, part) <= self.range_cost(s0, q),
    {
        self.lemma_range_cost_split(s0, skip, part);
        self.lemma_range_cost_split(s0, skip + part, (q - skip - part) as nat);
    }

    /// Within one step every unit costs the step's price, so the range costs
    /// `q` times that price.
    pub proof fn lemma_range_cost_one_step(&self, s0: nat, q: nat)
        requires
            self.wf(),
            self.within_one_step(s0, q),
        ensures
            self.range_cost(s0, q) == q * self.unit_price(s0),
        decreases q,
    {
        if q > 1 {
            self.lemma_step_of_monotonic(s0, s0 + 1);
            self.lemma_step_of_monotonic(s0 + 1, (s0 + q - 1) as nat);
            assert(self.within_one_step(s0 + 1, (q - 1) as nat));
            self.lemma_range_cost_one_step(s0 + 1, (q - 1) as nat);
            let p = self.unit_price(s0);
            assert(self.unit_price(s0 + 1) == p);
            assert(self.range_cost(s0, q) == p + self.range_cost(s0 + 1, (q - 1) as nat));
            assert(p + (q - 1) * p == q * p) by (nonlinear_arith);
        } else {
            let p = self.unit_price(s0);
            assert(self.range_cost(s0 + 1, 0) == 0);
            assert(self.range_cost(s0, 1) == p);
            assert(1 * p == p) by (nonlinear_arith);
        }
    }

    /// Summing a range downward from its top gives what summing it upward
    /// from its floor gives.
    pub proof fn lemma_vacated_cost_is_range_cost(&self, s0: nat, q: nat)
        ensures
            self.vacated_cost(s0 + q, q) == self.range_cost(s0, q),
        decreases q,
    {
        if q > 0 {
            let last = (s0 + q - 1) as nat;
            self.lemma_vacated_cost_is_range_cost(s0, (q - 1) as nat);
            self.lemma_range_cost_split(s0, (q - 1) as nat, 1);
            assert(self.range_cost(last + 1, 0) == 0);
            assert(self.range_cost(last, 1) == self.unit_price(last));
            assert(s0 + (q - 1) as nat == last);
        }
    }

    /// Selling and buying quote the same average over the same range.
    pub proof fn lemma_sell_average_is_buy_average(&self, s0: nat, q: nat)
        ensures
            self.average_vacated_price(s0 + q, q) == self.average_price(s0, q),
    {
        self.lemma_vacated_cost_is_range_cost(s0, q);
    }

    /// Where a range lies within one step, its average price, summed either
    /// way, is that step's unit price.
    pub proof fn lemma_closed_form_average(&self, s0: nat, q: nat)
        requires
            self.wf(),
            self.within_one_step(s0, q),
        ensures
            self.average_price(s0, q) == self.unit_price(s0),
            self.average_vacated_price(s0 + q, q) == self.unit_price(s0),
    {
        self.lemma_range_cost_one_step(s0, q);
        self.lemma_vacated_cost_is_range_cost(s0, q);
        lemma_div_multiples_vanish(self.unit_price(s0) as int, q as int);
    }
}

/// The curve that pools trade on, as a value for contracts.
pub open spec fn reference_curve() -> StepCurve {
    StepCurve { step_size: 1000, base_price: 1000, price_increment: 10_000 }
}

/// A total beyond 128 bits, spread over fewer than 2^64 units, averages
/// beyond 64 bits.
proof fn lemma_wide_total_has_wide_average(total: nat, q: nat)
    requires
        0 < q <= u64::MAX,
        total > u128::MAX,
    ensures
        total / q > u64::MAX,
{
    let b: int = 0x1_0000_0000_0000_0000;
    assert(q * b <= total) by (nonlinear_arith)
        requires
            0 < q <= 0xffff_ffff_ffff_ffff,
            b == 0x1_0000_0000_0000_0000,
            total > 0xffff_ffff_ffff_ffff_ffff_ffff_ffff_ffff,
    ;
    lemma_div_multiples_vanish(b, q as int);
    lemma_div_is_ordered(q * b, total as int, q as int);
}

} // verus!
