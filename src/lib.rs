//! Orchestration core for market-data backtests: tick values and their text
//! forms, the control protocol of a running tick stream, the early-exit rule,
//! and the registry of running jobs.

use vstd::prelude::*;

pub mod backtest;
pub mod backtester;
pub mod control;
pub mod decimal;
pub mod generator;
pub mod ids;
pub mod job;
pub mod json;
pub mod storage;
pub mod tick;
pub mod trading;
