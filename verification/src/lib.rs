//! Core of a two-asset constant-product market maker: checked fixed-point
//! arithmetic, fee and pricing rules, liquidity share accounting and the
//! pool operations built on them.

pub mod curve;
pub mod error;
pub mod fee;
pub mod identity;
pub mod liquidity;
pub mod math;
pub mod pool;

pub use error::{AmmError, CurveError};
pub use identity::Identity;
pub use pool::{Direction, Pool, PoolState, PoolUpdate};
