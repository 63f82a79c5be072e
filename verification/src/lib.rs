//! Exact uint256 arithmetic and display helpers for EVM amounts stored as
//! big-endian BLOBs, with the SQL-facing argument handling of each function.
//!
//! The host binding (registration of the SQL functions on a connection) lives
//! outside this crate's verified core; everything that decides a result lives
//! here.

pub mod args;
pub mod decimal;
pub mod encoding;
pub mod erc20_to_real;
pub mod format;
pub mod u256_add;
pub mod u256_fns;
pub mod u256_mul;
pub mod u256_sum;
pub mod u256_to_dec;
pub mod uint256;
