//! Grid/hedging trading engine core.
//!
//! A library of composable trading agents: a piecewise-linear gear curve
//! maps price to desired exposure, a fill-accounting record books
//! realized and unrealized profit, and a named inventory of agents acts
//! as one composite agent. Prices, gear values and profit figures are
//! exact fixed-point numbers: one unit is a millionth (a "micro"), so
//! all agent logic is integer arithmetic on micro values.

pub mod account;
pub mod agents;
pub mod bicoast;
pub mod control;
pub mod fixed;
pub mod gear;
pub mod inventory;
pub mod lean;
pub mod pl;
pub mod quote;
