//! Trading conditions: rules that look at each tick and may call for an action.

use vstd::prelude::*;

use crate::tick::Tick;

verus! {

/// A rule evaluated on every tick received; it returns the action to take, if any.
pub trait TradingCondition {
    /// Evaluates a new tick.
    fn eval(&mut self, t: &Tick) -> Option<TradingAction>;
}

/// An action on the market that a trading condition calls for. Orders and
/// positions are named by their 128-bit identifiers.
#[derive(Clone, Debug, PartialEq)]
pub enum TradingAction {
    /// Opens an order at market price, within `max_range` pips.
    MarketOrder {
        symbol: String,
        long: bool,
        size: usize,
        stop: Option<usize>,
        take_profit: Option<usize>,
        max_range: Option<usize>,
    },
    /// Opens an order at a price equal to or better than `entry_price` as soon as possible.
    LimitOrder {
        symbol: String,
        long: bool,
        size: usize,
        stop: Option<usize>,
        take_profit: Option<usize>,
        entry_price: usize,
    },
    /// Closes `size` units of a position at the current market rate.
    MarketClose { uuid: u128, size: usize },
    /// Places an order to close `size` units of a position.
    LimitClose { uuid: u128, size: usize, exit_price: usize },
    /// Modifies an order without taking any trading action.
    ModifyOrder { uuid: u128, size: usize, entry_price: usize, stop: Option<usize>, take_profit: Option<usize> },
    /// Modifies a position without taking any trading action.
    ModifyPosition { uuid: u128, stop: Option<usize>, take_profit: Option<usize> },
    /// Attempts to cancel an order.
    CancelOrder { uuid: u128 },
}

} // verus!
