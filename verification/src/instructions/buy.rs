use vstd::prelude::*;
use vstd::arithmetic::div_mod::{lemma_div_is_ordered, lemma_div_multiples_vanish};
use crate::curve::{reference_curve, StepCurve};
use crate::errors::CustomError;
use crate::state::{CurveConfiguration, LiquidityPool, MAX_SUPPLY};

verus! {

/// What a buy comes to: the amounts to move once the ledger has accepted it.
#[derive(Clone, Copy, Debug)]
pub struct BuyReceipt {
    /// Token units that go from the pool to the buyer.
    pub amount: u64,
    /// Price of those units on the curve: the average unit price times
    /// `amount`.
    pub total_cost: u64,
    /// Fee charged on top of the cost.
    pub fee: u64,
    /// Native currency that goes from the buyer to the treasury: cost and fee.
    pub total_with_fee: u64,
}

/// Position on the curve at which a pool prices a buy: the supply it has left
/// to sell.
pub open spec fn buy_position(pool: LiquidityPool) -> nat {
    (MAX_SUPPLY - pool.total_supply) as nat
}

/// Cost of buying `amount` units from `pool`: the average unit price over the
/// units bought, rounded down, times `amount`.
pub open spec fn buy_cost(pool: LiquidityPool, amount: u64) -> nat {
    reference_curve().average_price(buy_position(pool), amount as nat) * (amount as nat)
}

/// Fee on a cost: the configured share of it in basis points, rounded down.
/// Where cost times basis points leaves 64 bits no fee is charged: the buy
/// goes through without one rather than fail on the fee alone.
pub open spec fn fee_on(total_cost: nat, config: CurveConfiguration) -> nat {
    if total_cost * config.fee_bps() <= u64::MAX {
        total_cost * config.fee_bps() / 10_000
    } else {
        0
    }
}

/// What the buyer owes for `amount` units: cost and fee.
pub open spec fn buy_due(pool: LiquidityPool, config: CurveConfiguration, amount: u64) -> nat {
    buy_cost(pool, amount) + fee_on(buy_cost(pool, amount), config)
}

/// Why a buy is rejected, if it is. A zero amount is invalid; an amount beyond
/// the pool's token balance finds insufficient funds; a sum owed beyond 64
/// bits, or an amount beyond the supply left to sell, overflows.
pub open spec fn buy_rejection(
    pool: LiquidityPool,
    config: CurveConfiguration,
    pool_token_balance: u64,
    amount: u64,
) -> Option<CustomError> {
    if amount == 0 {
        Some(CustomError::InvalidAmount)
    } else if pool_token_balance < amount {
        Some(CustomError::InsufficientFunds)
    } else if buy_due(pool, config, amount) > u64::MAX || amount > buy_position(pool) {
        Some(CustomError::Overflow)
    } else {
        None
    }
}

/// The pool after an accepted buy of `amount` units: that many more sold,
/// nothing else changed.
pub open spec fn pool_after_buy(pool: LiquidityPool, amount: u64) -> LiquidityPool {
    LiquidityPool { total_supply: (pool.total_supply + amount) as u64, ..pool }
}

/// Average unit price, rounded down, of buying `amount` units at supply
/// position `current_supply` on the curve that pools trade on.
pub fn get_buy_price_for_amount(current_supply: u64, amount: u64) -> (res: Result<
    u64,
    CustomError,
>)
    requires
        amount > 0,
    ensures
        match res {
            Ok(price) => price == reference_curve().average_price(
                current_supply as nat,
                amount as nat,
            ),
            Err(e) => e == CustomError::Overflow && reference_curve().average_price(
                current_supply as nat,
                amount as nat,
            ) > u64::MAX,
        },
{
    StepCurve::reference().buy_price(current_supply, amount)
}

/// The fee on `total_cost` under `config`.
pub fn fee_for(total_cost: u64, config: &CurveConfiguration) -> (fee: u64)
    requires
        config.wf(),
    ensures
        fee == fee_on(total_cost as nat, *config),
        fee <= total_cost,
{
    let fee_bps: u64 = config.fees * 100;
    let fee: u64 = match total_cost.checked_mul(fee_bps) {
        Some(product) => product / 10_000,
        None => 0,
    };
    proof {
        if total_cost * fee_bps <= u64::MAX {
            assert(total_cost * fee_bps <= 10_000 * total_cost) by (nonlinear_arith)
                requires
                    fee_bps <= 10_000,
            ;
            lemma_div_is_ordered(total_cost * fee_bps, 10_000 * total_cost, 10_000);
            lemma_div_multiples_vanish(total_cost as int, 10_000);
        }
    }
    fee
}

/// Buys `amount` units from the pool, of which `pool_token_balance` are held
/// in its token account. The buy is priced on the curve at the supply the pool
/// has left, `MAX_SUPPLY - total_supply`, the fee of `config` is added, and
/// the pool records `amount` more units as sold. The receipt names what is to
/// be moved. A rejected buy leaves the pool as it was.
pub fn buy_tokens(
    pool: &mut LiquidityPool,
    config: &CurveConfiguration,
    pool_token_balance: u64,
    amount: u64,
) -> (res: Result<BuyReceipt, CustomError>)
    requires
        old(pool).wf(),
        config.wf(),
    ensures
        match res {
            Ok(receipt) => {
                &&& buy_rejection(*old(pool), *config, pool_token_balance, amount) is None
                &&& receipt.amount == amount
                &&& receipt.total_cost == buy_cost(*old(pool), amount)
                &&& receipt.fee == fee_on(buy_cost(*old(pool), amount), *config)
                &&& receipt.total_with_fee == buy_due(*old(pool), *config, amount)
                &&& *final(pool) == pool_after_buy(*old(pool), amount)
                &&& final(pool).wf()
            },
            Err(e) => {
                &&& buy_rejection(*old(pool), *config, pool_token_balance, amount) == Some(e)
                &&& *final(pool) == *old(pool)
            },
        },
{
    if amount == 0 {
        return Err(CustomError::InvalidAmount);
    }
    if pool_token_balance < amount {
        return Err(CustomError::InsufficientFunds);
    }
    let current_supply: u64 = MAX_SUPPLY - pool.total_supply;
    let ghost average: nat = reference_curve().average_price(current_supply as nat, amount as nat);
    let price: u64 = match get_buy_price_for_amount(current_supply, amount) {
        Ok(price) => price,
        Err(e) => {
            proof {
                assert(average <= average * amount) by (nonlinear_arith)
                    requires
                        amount >= 1,
                ;
            }
            return Err(e);
        },
    };
    let total_cost: u64 = match price.checked_mul(amount) {
        Some(total_cost) => total_cost,
        None => {
            return Err(CustomError::Overflow);
        },
    };
    let fee: u64 = fee_for(total_cost, config);
    let total_with_fee: u64 = match total_cost.checked_add(fee) {
        Some(total_with_fee) => total_with_fee,
        None => {
            return Err(CustomError::Overflow);
        },
    };
    if amount > current_supply {
        return Err(CustomError::Overflow);
    }
    pool.total_supply = pool.total_supply + amount;
    Ok(BuyReceipt { amount, total_cost, fee, total_with_fee })
}

} // verus!
