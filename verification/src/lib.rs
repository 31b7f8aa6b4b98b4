//! Pricing and accounting core of a two-asset constant-product liquidity pool.
//!
//! The pool holds a reserve of each of two assets and issues shares to those
//! who deposit. This crate decides how many shares a deposit earns, what a
//! burned share returns, and what a swap pays out. It holds no assets: it
//! works on the balances that the ledger reports, and says which amounts the
//! ledger has to move.

pub mod error;
pub mod instructions;
pub mod laws;
pub mod math;
pub mod pricing;
pub mod state;

pub use error::AmmError;
pub use instructions::{add_liquidity, initialize_pool, remove_liquidity, swap};
pub use math::integer_sqrt;
pub use state::{
    AddLiquidity, InitializePool, Mint, Pool, RemoveLiquidity, Swap, TokenAccount,
};
