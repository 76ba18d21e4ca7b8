use vstd::prelude::*;
use crate::errors::CustomError;
use crate::state::LiquidityPool;

verus! {

/// Native currency that creating a pool costs, paid to the treasury.
pub const CREATION_FEE: u64 = 5_700_000;

/// Token units minted into a new pool.
pub const MINT_AMOUNT: u64 = 1_000_000_000_000_000_000;

/// What creating a pool comes to: the fresh ledger, and the amounts to move.
pub struct PoolCreation {
    /// The ledger of the new pool.
    pub pool: LiquidityPool,
    /// Native currency to move from the payer to the treasury.
    pub creation_fee: u64,
    /// Token units to mint into the pool's token account.
    pub mint_amount: u64,
    /// Token units to pass on from the pool's token account to the treasury.
    pub treasury_share: u64,
}

/// Decides the creation of a pool. The payer must hold the creation fee on top
/// of `rent_minimum`, the balance that keeps the pool's account alive;
/// otherwise the creation is rejected with `InsufficientPayment`. On success
/// the pool starts with nothing sold and nothing in reserve.
pub fn create_pool(
    creator: anchor_lang::prelude::Pubkey,
    token: anchor_lang::prelude::Pubkey,
    bump: u8,
    payer_lamports: u64,
    rent_minimum: u64,
) -> (res: Result<PoolCreation, CustomError>)
    ensures
        match res {
            Ok(creation) => {
                &&& payer_lamports >= CREATION_FEE + rent_minimum
                &&& creation.pool.creator == creator
                &&& creation.pool.token == token
                &&& creation.pool.bump == bump
                &&& creation.pool.total_supply == 0
                &&& creation.pool.reserve_token == 0
                &&& creation.pool.reserve_sol == 0
                &&& creation.pool.wf()
                &&& creation.creation_fee == CREATION_FEE
                &&& creation.mint_amount == MINT_AMOUNT
                &&& creation.treasury_share == MINT_AMOUNT / 100
            },
            Err(e) => payer_lamports < CREATION_FEE + rent_minimum && e
                == CustomError::InsufficientPayment,
        },
{
    let required_lamports: u64 = CREATION_FEE;
    let covered: bool = match required_lamports.checked_add(rent_minimum) {
        Some(needed) => payer_lamports >= needed,
        None => false,
    };
    if !covered {
        return Err(CustomError::InsufficientPayment);
    }
    let total_amount: u64 = MINT_AMOUNT;
    Ok(
        PoolCreation {
            pool: LiquidityPool::new(creator, token, bump),
            creation_fee: required_lamports,
            mint_amount: total_amount,
            treasury_share: total_amount / 100,
        },
    )
}

} // verus!
