//! Pricing and liquidity-accounting engine of a two-asset constant-product
//! automated market maker.
//!
//! Given pool reserves and a liquidity-provider or trader action, the engines
//! compute the exact token amounts to move and the liquidity-provider share
//! amounts to mint or burn, with overflow-safe, deterministic fixed-point
//! arithmetic.  The engines are stateless pure functions over the values
//! passed in; custody of the assets and persistence of the pool state belong
//! to the host environment that calls them.

pub mod error;
pub mod helper;
pub mod math;
pub mod pool;
