use anchor_lang::prelude::Pubkey;
use wybe_curve::errors::CustomError;
use wybe_curve::instructions::buy::fee_for;
use wybe_curve::instructions::create_pool::{CREATION_FEE, MINT_AMOUNT};
use wybe_curve::instructions::{buy_tokens, create_pool, init_global, sell_tokens};
use wybe_curve::state::{CurveConfiguration, LiquidityPool, DEFAULT_FEE, MAX_FEE, MAX_SUPPLY};

fn creator() -> Pubkey {
    Pubkey::new_from_array([1u8; 32])
}

fn token() -> Pubkey {
    Pubkey::new_from_array([2u8; 32])
}

fn fresh_pool() -> LiquidityPool {
    LiquidityPool::new(creator(), token(), 254)
}

fn counters(pool: &LiquidityPool) -> (u64, u64, u64) {
    (pool.total_supply, pool.reserve_token, pool.reserve_sol)
}

#[test]
fn new_pool_starts_empty() {
    let pool = fresh_pool();
    assert_eq!(pool.creator, creator());
    assert_eq!(pool.token, token());
    assert_eq!(pool.bump, 254);
    assert_eq!(counters(&pool), (0, 0, 0));
}

#[test]
fn configuration_constructors() {
    assert_eq!(CurveConfiguration::new(7).fees, 7);
    assert_eq!(CurveConfiguration::new(0).fees, 0);
    assert_eq!(CurveConfiguration::default().fees, 2);
    assert_eq!(DEFAULT_FEE, 2);
    assert_eq!(MAX_FEE, 100);
    assert_eq!(MAX_SUPPLY, 990_000_000);
}

#[test]
fn init_global_substitutes_the_default_for_zero() {
    assert_eq!(init_global(0).unwrap().fees, 2);
}

#[test]
fn init_global_keeps_a_valid_fee() {
    assert_eq!(init_global(1).unwrap().fees, 1);
    assert_eq!(init_global(5).unwrap().fees, 5);
    assert_eq!(init_global(100).unwrap().fees, 100);
}

#[test]
fn init_global_rejects_a_fee_above_one_hundred() {
    assert_eq!(init_global(101).err(), Some(CustomError::InvalidFee));
    assert_eq!(init_global(u64::MAX).err(), Some(CustomError::InvalidFee));
}

#[test]
fn create_pool_needs_the_fee_on_top_of_rent() {
    let rent = 1_500_000u64;
    let created = create_pool(creator(), token(), 9, 5_700_000 + rent, rent).ok().unwrap();
    assert_eq!(created.pool.creator, creator());
    assert_eq!(created.pool.token, token());
    assert_eq!(created.pool.bump, 9);
    assert_eq!(counters(&created.pool), (0, 0, 0));
    assert_eq!(created.creation_fee, 5_700_000);
    assert_eq!(created.mint_amount, 1_000_000_000_000_000_000);
    assert_eq!(created.treasury_share, 10_000_000_000_000_000);
    assert_eq!(CREATION_FEE, 5_700_000);
    assert_eq!(MINT_AMOUNT, 1_000_000_000u64 * 1_000_000_000u64);

    let short = create_pool(creator(), token(), 9, 5_700_000 + rent - 1, rent);
    assert_eq!(short.err(), Some(CustomError::InsufficientPayment));
}

#[test]
fn create_pool_rejects_a_rent_that_no_balance_covers() {
    let res = create_pool(creator(), token(), 0, u64::MAX, u64::MAX);
    assert_eq!(res.err(), Some(CustomError::InsufficientPayment));
    let res = create_pool(creator(), token(), 0, u64::MAX, u64::MAX - 5_700_000);
    assert!(res.is_ok());
}

#[test]
fn fee_of_two_percent() {
    let config = init_global(2).unwrap();
    let fee = fee_for(1_000_000, &config);
    assert_eq!(fee, 20_000);
    assert_eq!(1_000_000 + fee, 1_020_000);
}

#[test]
fn fee_is_rounded_down() {
    let config = CurveConfiguration::new(3);
    // 333 * 300 / 10000 = 9.99
    assert_eq!(fee_for(333, &config), 9);
    assert_eq!(fee_for(0, &config), 0);
    assert_eq!(fee_for(12_345, &CurveConfiguration::new(100)), 12_345);
    assert_eq!(fee_for(12_345, &CurveConfiguration::new(0)), 0);
}

#[test]
fn fee_falls_back_to_zero_where_its_product_overflows() {
    let config = CurveConfiguration::default();
    let largest_with_fee = u64::MAX / 200;
    assert_eq!(fee_for(largest_with_fee, &config), largest_with_fee * 200 / 10_000);
    assert_eq!(fee_for(largest_with_fee + 1, &config), 0);
}

#[test]
fn buy_prices_at_the_supply_left_and_adds_the_fee() {
    let mut pool = fresh_pool();
    let config = CurveConfiguration::default();
    let receipt = buy_tokens(&mut pool, &config, 1_000_000, 10).unwrap();
    // Position 990,000,000 lies in step 990,000.
    assert_eq!(receipt.amount, 10);
    assert_eq!(receipt.total_cost, 10 * (1000 + 990_000 * 10_000));
    assert_eq!(receipt.total_cost, 99_000_010_000);
    assert_eq!(receipt.fee, 1_980_000_200);
    assert_eq!(receipt.total_with_fee, 100_980_010_200);
    assert_eq!(counters(&pool), (10, 0, 0));
    assert_eq!(pool.creator, creator());
    assert_eq!(pool.token, token());
    assert_eq!(pool.bump, 254);
}

#[test]
fn buy_from_a_pool_with_part_sold() {
    let mut pool = fresh_pool();
    pool.total_supply = 989_999_500;
    let config = CurveConfiguration::new(1);
    // Position 500: 500 units at 1000, 1000 at 11000.
    let receipt = buy_tokens(&mut pool, &config, 5000, 500).unwrap();
    assert_eq!(receipt.total_cost, 500_000);
    assert_eq!(receipt.fee, 5000);
    assert_eq!(receipt.total_with_fee, 505_000);
    assert_eq!(pool.total_supply, 990_000_000);
}

#[test]
fn buy_of_zero_is_invalid() {
    let mut pool = fresh_pool();
    pool.reserve_sol = 77;
    let res = buy_tokens(&mut pool, &CurveConfiguration::default(), 100, 0);
    assert_eq!(res.err(), Some(CustomError::InvalidAmount));
    assert_eq!(counters(&pool), (0, 0, 77));
}

#[test]
fn buy_beyond_the_token_balance_is_rejected_without_change() {
    let mut pool = fresh_pool();
    pool.total_supply = 40;
    pool.reserve_token = 5;
    pool.reserve_sol = 77;
    let res = buy_tokens(&mut pool, &CurveConfiguration::default(), 99, 100);
    assert_eq!(res.err(), Some(CustomError::InsufficientFunds));
    assert_eq!(counters(&pool), (40, 5, 77));
    assert_eq!(pool.bump, 254);
}

#[test]
fn buy_beyond_the_supply_left_overflows() {
    let mut pool = fresh_pool();
    pool.total_supply = MAX_SUPPLY - 3;
    let res = buy_tokens(&mut pool, &CurveConfiguration::default(), 1000, 4);
    assert_eq!(res.err(), Some(CustomError::Overflow));
    assert_eq!(counters(&pool), (MAX_SUPPLY - 3, 0, 0));
    let receipt = buy_tokens(&mut pool, &CurveConfiguration::default(), 1000, 3).unwrap();
    assert_eq!(receipt.total_cost, 3000);
    assert_eq!(pool.total_supply, MAX_SUPPLY);
    let res = buy_tokens(&mut pool, &CurveConfiguration::default(), 1000, 1);
    assert_eq!(res.err(), Some(CustomError::Overflow));
}

#[test]
fn buy_whose_cost_leaves_64_bits_overflows() {
    let mut pool = fresh_pool();
    // 1.2e9 units from position 9.9e8 average above 1.5e10 each.
    let res = buy_tokens(&mut pool, &CurveConfiguration::default(), u64::MAX, 1_200_000_000);
    assert_eq!(res.err(), Some(CustomError::Overflow));
    assert_eq!(counters(&pool), (0, 0, 0));
}

#[test]
fn buy_of_all_the_supply_left_goes_without_fee() {
    let mut pool = fresh_pool();
    let receipt = buy_tokens(&mut pool, &CurveConfiguration::default(), u64::MAX, MAX_SUPPLY).unwrap();
    // Steps 990,000 to 1,979,999 in full: the average step is 1,484,999.5.
    assert_eq!(receipt.total_cost, 14_849_996_000 * 990_000_000);
    // Cost times two hundred basis points leaves 64 bits.
    assert_eq!(receipt.fee, 0);
    assert_eq!(receipt.total_with_fee, receipt.total_cost);
    assert_eq!(pool.total_supply, MAX_SUPPLY);
}

#[test]
fn sell_pays_the_average_over_the_units_vacated() {
    let mut pool = fresh_pool();
    pool.total_supply = 1500;
    pool.reserve_sol = 10_000_000;
    let receipt = sell_tokens(&mut pool, 1500).unwrap();
    assert_eq!(receipt.amount, 1500);
    assert_eq!(receipt.total_payout, 4333 * 1500);
    assert_eq!(counters(&pool), (0, 0, 10_000_000 - 6_499_500));
}

#[test]
fn sell_within_the_top_step() {
    let mut pool = fresh_pool();
    pool.total_supply = 2500;
    pool.reserve_sol = 10_500_000;
    let receipt = sell_tokens(&mut pool, 500).unwrap();
    assert_eq!(receipt.total_payout, 500 * 21_000);
    assert_eq!(counters(&pool), (2000, 0, 0));
}

#[test]
fn sell_of_zero_is_invalid() {
    let mut pool = fresh_pool();
    pool.total_supply = 10;
    pool.reserve_sol = 10;
    assert_eq!(sell_tokens(&mut pool, 0).err(), Some(CustomError::InvalidAmount));
    assert_eq!(counters(&pool), (10, 0, 10));
}

#[test]
fn sell_against_an_empty_reserve_is_rejected() {
    let mut pool = fresh_pool();
    pool.total_supply = 10;
    assert_eq!(sell_tokens(&mut pool, 1).err(), Some(CustomError::InsufficientFunds));
    assert_eq!(counters(&pool), (10, 0, 0));
}

#[test]
fn sell_beyond_what_is_sold_is_rejected_without_change() {
    let mut pool = fresh_pool();
    pool.total_supply = 10;
    pool.reserve_token = 3;
    pool.reserve_sol = u64::MAX;
    assert_eq!(sell_tokens(&mut pool, 11).err(), Some(CustomError::InsufficientFunds));
    assert_eq!(counters(&pool), (10, 3, u64::MAX));
    assert_eq!(pool.creator, creator());
    assert_eq!(pool.token, token());
}

#[test]
fn sell_beyond_the_reserve_is_rejected_without_change() {
    let mut pool = fresh_pool();
    pool.total_supply = 1500;
    pool.reserve_sol = 6_499_499;
    assert_eq!(sell_tokens(&mut pool, 1500).err(), Some(CustomError::InsufficientFunds));
    assert_eq!(counters(&pool), (1500, 0, 6_499_499));
    pool.reserve_sol = 6_499_500;
    assert!(sell_tokens(&mut pool, 1500).is_ok());
    assert_eq!(counters(&pool), (0, 0, 0));
}

#[test]
fn sell_whose_payout_leaves_64_bits_overflows() {
    let mut pool = fresh_pool();
    pool.total_supply = u64::MAX;
    pool.reserve_sol = u64::MAX;
    assert_eq!(sell_tokens(&mut pool, 1).err(), Some(CustomError::Overflow));
    assert_eq!(counters(&pool), (u64::MAX, 0, u64::MAX));
}

#[test]
fn supply_sold_is_the_net_of_buys_and_sells() {
    let mut pool = fresh_pool();
    pool.reserve_sol = 1_000_000_000_000;
    let config = CurveConfiguration::default();
    let mut net: u64 = 0;
    let mut paid: u64 = 0;
    for (buy, amount) in [(true, 700u64), (true, 2300), (false, 1000), (true, 1), (false, 1500), (false, 501), (true, 2500), (false, 2500)] {
        if buy {
            let receipt = buy_tokens(&mut pool, &config, u64::MAX, amount).unwrap();
            assert_eq!(receipt.amount, amount);
            net += amount;
        } else {
            let receipt = sell_tokens(&mut pool, amount).unwrap();
            assert_eq!(receipt.amount, amount);
            net -= amount;
            paid += receipt.total_payout;
        }
        assert_eq!(pool.total_supply, net);
        assert_eq!(pool.reserve_sol, 1_000_000_000_000 - paid);
        assert!(pool.total_supply <= MAX_SUPPLY);
    }
    assert_eq!(net, 0);
    // 1000 from [2000, 3000), 1500 from [1501, 3001) less the first, then the rest.
    assert_eq!(paid, 1000 * 21_000 + (1 * 21_000 + 1000 * 11_000 + 499 * 1000) / 1500 * 1500
        + 501 * 1000 + (1000 * 1000 + 1000 * 11_000 + 500 * 21_000) / 2500 * 2500);
}

#[test]
fn rejected_trades_in_a_run_change_nothing() {
    let mut pool = fresh_pool();
    pool.reserve_sol = 5_000_000;
    let config = CurveConfiguration::default();
    buy_tokens(&mut pool, &config, 10_000, 1200).unwrap();
    let before = counters(&pool);
    assert!(sell_tokens(&mut pool, 1201).is_err());
    assert!(buy_tokens(&mut pool, &config, 10, 11).is_err());
    assert!(buy_tokens(&mut pool, &config, 10, 0).is_err());
    assert_eq!(counters(&pool), before);
    assert_eq!(before, (1200, 0, 5_000_000));
}
