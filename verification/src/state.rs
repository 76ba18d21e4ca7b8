use vstd::prelude::*;

verus! {

/// The account address type of `anchor_lang` (`anchor_lang::prelude::Pubkey`),
/// carried through the ledger as an opaque identity: nothing here reads or
/// compares its bytes.
#[verifier::external_type_specification]
#[verifier::external_body]
pub struct ExPubkey(anchor_lang::prelude::Pubkey);

/// Largest number of tokens a pool can have sold.
pub const MAX_SUPPLY: u64 = 990_000_000;

/// Fee percentage used when none is supplied.
pub const DEFAULT_FEE: u64 = 2;

/// Largest fee percentage a configuration may hold.
pub const MAX_FEE: u64 = 100;

/// The fee rate that governs every pool.
#[derive(Clone, Copy, Debug)]
pub struct CurveConfiguration {
    /// Fee on a buy, as a percentage of the cost.
    pub fees: u64,
}

impl CurveConfiguration {
    /// The fee is a percentage: it lies between 0 and 100.
    pub open spec fn wf(&self) -> bool {
        self.fees <= MAX_FEE
    }

    /// The fee rate in basis points.
    pub open spec fn fee_bps(&self) -> nat {
        (self.fees * 100) as nat
    }

    /// A configuration with the given fee percentage, taken as it is.
    pub fn new(fees: u64) -> (config: Self)
        ensures
            config.fees == fees,
            config.wf() <==> fees <= MAX_FEE,
    {
        Self { fees }
    }

    /// The configuration with the default fee of two percent.
    pub fn default() -> (config: Self)
        ensures
            config.fees == DEFAULT_FEE,
            config.wf(),
    {
        Self { fees: 2 }
    }
}

/// The ledger of one pool: how much of its token is sold and how much native
/// currency stands against it.
pub struct LiquidityPool {
    /// Who created the pool.
    pub creator: anchor_lang::prelude::Pubkey,
    /// The token the pool trades.
    pub token: anchor_lang::prelude::Pubkey,
    /// Tokens sold so far, out of `MAX_SUPPLY`.
    pub total_supply: u64,
    /// Tokens recorded as held in reserve; no trade reads or changes it.
    pub reserve_token: u64,
    /// Native currency held against the tokens sold.
    pub reserve_sol: u64,
    /// Nonce of the pool's derived address.
    pub bump: u8,
}

impl LiquidityPool {
    /// The pool has sold no more than the maximum supply.
    pub open spec fn wf(&self) -> bool {
        self.total_supply <= MAX_SUPPLY
    }

    /// A fresh pool: nothing sold, nothing in reserve.
    pub fn new(creator: anchor_lang::prelude::Pubkey, token: anchor_lang::prelude::Pubkey, bump: u8) -> (pool: Self)
        ensures
            pool.creator == creator,
            pool.token == token,
            pool.bump == bump,
            pool.total_supply == 0,
            pool.reserve_token == 0,
            pool.reserve_sol == 0,
            pool.wf(),
    {
        Self {
            creator,
            token,
            total_supply: 0_u64,
            reserve_token: 0_u64,
            reserve_sol: 0_u64,
            bump,
        }
    }
}

} // verus!
