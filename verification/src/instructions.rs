//! The operations of the market maker: configuring the fee, creating a pool,
//! buying and selling.

pub mod init_global;
pub mod create_pool;
pub mod buy;
pub mod sell;

pub use init_global::init_global;
pub use create_pool::{create_pool, PoolCreation};
pub use buy::{buy_tokens, get_buy_price_for_amount, BuyReceipt};
pub use sell::{get_sell_price_for_amount, sell_tokens, SellReceipt};
