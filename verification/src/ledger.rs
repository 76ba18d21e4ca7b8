//! Runs of trades on one pool, and what holds of the ledger across them.

use vstd::prelude::*;
use crate::errors::CustomError;
use crate::instructions::buy::{buy_rejection, pool_after_buy};
use crate::instructions::sell::{pool_after_sell, sell_payout, sell_rejection};
use crate::state::{CurveConfiguration, LiquidityPool};

verus! {

/// One trade against a pool.
pub enum Trade {
    /// A buy of `amount` units while the pool's token account holds
    /// `pool_token_balance`.
    Buy { amount: u64, pool_token_balance: u64 },
    /// A sale of `amount` units.
    Sell { amount: u64 },
}

/// The pool after `trade`, or `None` where the trade is rejected.
pub open spec fn pool_after_trade(
    pool: LiquidityPool,
    config: CurveConfiguration,
    trade: Trade,
) -> Option<LiquidityPool> {
    match trade {
        Trade::Buy { amount, pool_token_balance } => if buy_rejection(
            pool,
            config,
            pool_token_balance,
            amount,
        ) is None {
            Some(pool_after_buy(pool, amount))
        } else {
            None
        },
        Trade::Sell { amount } => if sell_rejection(pool, amount) is None {
            Some(pool_after_sell(pool, amount))
        } else {
            None
        },
    }
}

/// The pool after all of `trades` in turn, or `None` where one of them is
/// rejected.
pub open spec fn pool_after_trades(
    pool: LiquidityPool,
    config: CurveConfiguration,
    trades: Seq<Trade>,
) -> Option<LiquidityPool>
    decreases trades.len(),
{
    if trades.len() == 0 {
        Some(pool)
    } else {
        match pool_after_trade(pool, config, trades[0]) {
            Some(next) => pool_after_trades(next, config, trades.skip(1)),
            None => None,
        }
    }
}

/// Units bought less units sold over `trades`.
pub open spec fn net_bought(trades: Seq<Trade>) -> int
    decreases trades.len(),
{
    if trades.len() == 0 {
        0
    } else {
        let rest = net_bought(trades.skip(1));
        match trades[0] {
            Trade::Buy { amount, .. } => amount + rest,
            Trade::Sell { amount } => rest - amount,
        }
    }
}

/// Native currency paid out to sellers over `trades`, run from `pool`; zero
/// from the first rejected trade on.
pub open spec fn paid_out(
    pool: LiquidityPool,
    config: CurveConfiguration,
    trades: Seq<Trade>,
) -> nat
    decreases trades.len(),
{
    if trades.len() == 0 {
        0
    } else {
        match pool_after_trade(pool, config, trades[0]) {
            Some(next) => {
                let rest = paid_out(next, config, trades.skip(1));
                match trades[0] {
                    Trade::Buy { .. } => rest,
                    Trade::Sell { amount } => sell_payout(pool, amount) + rest,
                }
            },
            None => 0,
        }
    }
}

/// Over a run of trades of which none is rejected, the units sold change by
/// exactly the units bought less the units sold back, the pool never holds
/// more than the maximum supply as sold, and the reserve falls by exactly what
/// was paid out, so it never goes below zero. Nothing else in the pool
/// changes.
pub proof fn lemma_trades_conserve_supply(
    pool: LiquidityPool,
    config: CurveConfiguration,
    trades: Seq<Trade>,
)
    requires
        pool.wf(),
        pool_after_trades(pool, config, trades) is Some,
    ensures
        ({
            let end = pool_after_trades(pool, config, trades).unwrap();
            &&& end.total_supply == pool.total_supply + net_bought(trades)
            &&& end.wf()
            &&& end.reserve_sol + paid_out(pool, config, trades) == pool.reserve_sol
            &&& end.reserve_token == pool.reserve_token
            &&& end.creator == pool.creator
            &&& end.token == pool.token
            &&& end.bump == pool.bump
        }),
    decreases trades.len(),
{
    if trades.len() > 0 {
        let next = pool_after_trade(pool, config, trades[0]).unwrap();
        lemma_trades_conserve_supply(next, config, trades.skip(1));
    }
}

/// A sale of more than the pool has sold, and a buy of more than the pool's
/// token account holds, are both rejected for insufficient funds.
pub proof fn lemma_oversized_trade_rejected(
    pool: LiquidityPool,
    config: CurveConfiguration,
    pool_token_balance: u64,
    amount: u64,
)
    ensures
        amount > pool.total_supply ==> sell_rejection(pool, amount) == Some(
            CustomError::InsufficientFunds,
        ),
        amount > pool_token_balance ==> buy_rejection(pool, config, pool_token_balance, amount)
            == Some(CustomError::InsufficientFunds),
        amount > pool.total_supply ==> pool_after_trade(pool, config, Trade::Sell { amount })
            is None,
        amount > pool_token_balance ==> pool_after_trade(
            pool,
            config,
            Trade::Buy { amount, pool_token_balance },
        ) is None,
{
}

} // verus!
