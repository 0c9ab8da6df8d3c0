//! A collateralized-lending position and risk engine.
//!
//! The engine tracks, per account, assets supplied as collateral, assets
//! borrowed, and staked balances; derives a solvency metric (the health
//! factor) that gates borrowing and triggers liquidation; runs the manual
//! liquidation and automatic liquidation-protection protocols; and keeps
//! time-weighted reward accrual for staking.
//!
//! All amounts are plain unsigned fixed-point integers. Assets and accounts
//! are identified by small integer ids; the host layer that custodies
//! tokens, talks to the price oracle and persists state lives outside this
//! crate and hands the engine plain values: the lending pool's status, the
//! oracle quotes it gathered and the current time.
//!
//! - [`math`] — the `floor(a * b / d)` kernel with a 256-bit intermediate.
//! - [`entries`] — keyed entry lists, the shape of every ledger map.
//! - [`config`] — asset configs, rates, protocol constants and policies.
//! - [`errors`] — the error taxonomy.
//! - [`position`] — the per-account ledger and its credit/debit accessors.
//! - [`valuation`] — price resolution and decimal-normalized USD values.
//! - [`health`] — the health factor and its classification.
//! - [`swap`] — the fixed-rate/oracle-priced exchange.
//! - [`staking`] — the checkpoint accumulator and the flat time rate.
//! - [`liquidation`] — seize arithmetic and the protection selection.
//! - [`hub`] — the engine's state and every entry point.

pub mod config;
pub mod entries;
pub mod errors;
pub mod health;
pub mod hub;
pub mod liquidation;
pub mod math;
pub mod position;
pub mod staking;
pub mod swap;
pub mod valuation;
