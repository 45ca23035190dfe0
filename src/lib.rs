//! Verified queries on a Hyperdrive pool: fixed-point values read from and
//! written to decimal text, checkpoint bucketing, effective share reserves
//! and pool solvency.
use vstd::prelude::*;

pub mod error;
pub mod pool;
pub mod text;
pub mod uint;
pub mod utils;

pub use error::HyperdriveError;
pub use pool::{HyperdriveState, PoolConfig, PoolInfo};
pub use text::{format_fixed, format_signed, parse_fixed, parse_signed};
pub use uint::{Signed256, Uint256};
pub use utils::{effective_share_reserves, get_effective_share_reserves};

verus! {

} // verus!
