use vstd::prelude::*;
use crate::errors::CustomError;
use crate::state::{CurveConfiguration, DEFAULT_FEE, MAX_FEE};

verus! {

/// The fee percentage that a configuration takes from the supplied one: zero
/// stands for the default.
pub open spec fn effective_fee(fees: u64) -> u64 {
    if fees == 0 {
        DEFAULT_FEE
    } else {
        fees
    }
}

/// Sets up the fee configuration from a fee percentage. Zero selects the
/// default of two percent; a percentage above one hundred is rejected with
/// `InvalidFee`.
pub fn init_global(fees: u64) -> (res: Result<CurveConfiguration, CustomError>)
    ensures
        match res {
            Ok(config) => fees <= MAX_FEE && config.fees == effective_fee(fees) && config.wf(),
            Err(e) => fees > MAX_FEE && e == CustomError::InvalidFee,
        },
{
    let fees: u64 = if fees == 0 {
        2
    } else {
        fees
    };

    if fees > 100_u64 {
        return Err(CustomError::InvalidFee);
    }
    Ok(CurveConfiguration::new(fees))
}

} // verus!
