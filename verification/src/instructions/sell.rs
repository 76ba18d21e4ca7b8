use vstd::prelude::*;
use crate::curve::{reference_curve, StepCurve};
use crate::errors::CustomError;
use crate::state::LiquidityPool;

verus! {

/// What a sale comes to: the amounts to move once the ledger has accepted it.
#[derive(Clone, Copy, Debug)]
pub struct SellReceipt {
    /// Token units to destroy from the seller's balance.
    pub amount: u64,
    /// Native currency that goes from the treasury to the seller.
    pub total_payout: u64,
}

/// Payout for selling `amount` units back to `pool`: the average unit price
/// over the units vacated, the topmost `amount` of those sold, rounded down,
/// times `amount`.
pub open spec fn sell_payout(pool: LiquidityPool, amount: u64) -> nat {
    reference_curve().average_vacated_price(pool.total_supply as nat, amount as nat)
        * (amount as nat)
}

/// Why a sale is rejected, if it is. A zero amount is invalid; an empty
/// reserve, an amount beyond what is sold, or a payout beyond the reserve
/// finds insufficient funds; a payout beyond 64 bits overflows.
pub open spec fn sell_rejection(pool: LiquidityPool, amount: u64) -> Option<CustomError> {
    if amount == 0 {
        Some(CustomError::InvalidAmount)
    } else if pool.reserve_sol == 0 || pool.total_supply < amount {
        Some(CustomError::InsufficientFunds)
    } else if sell_payout(pool, amount) > u64::MAX {
        Some(CustomError::Overflow)
    } else if pool.reserve_sol < sell_payout(pool, amount) {
        Some(CustomError::InsufficientFunds)
    } else {
        None
    }
}

/// The pool after an accepted sale of `amount` units: that many fewer sold,
/// the payout gone from the reserve, nothing else changed.
pub open spec fn pool_after_sell(pool: LiquidityPool, amount: u64) -> LiquidityPool {
    LiquidityPool {
        total_supply: (pool.total_supply - amount) as u64,
        reserve_sol: (pool.reserve_sol - sell_payout(pool, amount)) as u64,
        ..pool
    }
}

/// Average unit price, rounded down, of selling `amount` units down to supply
/// position `supply_after` on the curve that pools trade on.
pub fn get_sell_price_for_amount(supply_after: u64, amount: u64) -> (res: Result<
    u64,
    CustomError,
>)
    requires
        amount > 0,
    ensures
        match res {
            Ok(price) => price == reference_curve().average_vacated_price(
                (supply_after + amount) as nat,
                amount as nat,
            ),
            Err(e) => e == CustomError::Overflow && reference_curve().average_vacated_price(
                (supply_after + amount) as nat,
                amount as nat,
            ) > u64::MAX,
        },
{
    StepCurve::reference().sell_price(supply_after, amount)
}

/// Sells `amount` units back to the pool. The sale is priced on the curve over
/// the topmost `amount` units of those sold, the payout is taken from the
/// reserve, and the pool records `amount` fewer units as sold. No fee is
/// charged. The receipt names what is to be moved. A rejected sale leaves the
/// pool as it was.
pub fn sell_tokens(pool: &mut LiquidityPool, amount: u64) -> (res: Result<
    SellReceipt,
    CustomError,
>)
    ensures
        match res {
            Ok(receipt) => {
                &&& sell_rejection(*old(pool), amount) is None
                &&& receipt.amount == amount
                &&& receipt.total_payout == sell_payout(*old(pool), amount)
                &&& *final(pool) == pool_after_sell(*old(pool), amount)
                &&& old(pool).wf() ==> final(pool).wf()
            },
            Err(e) => {
                &&& sell_rejection(*old(pool), amount) == Some(e)
                &&& *final(pool) == *old(pool)
            },
        },
{
    if amount == 0 {
        return Err(CustomError::InvalidAmount);
    }
    if pool.reserve_sol == 0 {
        return Err(CustomError::InsufficientFunds);
    }
    let total_supply: u64 = pool.total_supply;
    if total_supply < amount {
        return Err(CustomError::InsufficientFunds);
    }
    let ghost average: nat = reference_curve().average_vacated_price(
        total_supply as nat,
        amount as nat,
    );
    let price: u64 = match get_sell_price_for_amount(total_supply - amount, amount) {
        Ok(price) => price,
        Err(e) => {
            proof {
                assert(average <= average * amount) by (nonlinear_arith)
                    requires
                        amount >= 1,
                ;
            }
            return Err(e);
        },
    };
    let total_payout: u64 = match price.checked_mul(amount) {
        Some(total_payout) => total_payout,
        None => {
            return Err(CustomError::Overflow);
        },
    };
    if pool.reserve_sol < total_payout {
        return Err(CustomError::InsufficientFunds);
    }
    pool.total_supply = total_supply - amount;
    pool.reserve_sol = pool.reserve_sol - total_payout;
    Ok(SellReceipt { amount, total_payout })
}

} // verus!
