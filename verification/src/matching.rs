//! The matching rules: what one tick does to one pending order.
use crate::types::{OrderSide, OrderType};
use vstd::prelude::*;

verus! {

/// What a tick does to a pending order.
#[derive(Debug, Clone, Copy, PartialEq, Eq, Structural)]
pub enum Decision {
    /// The order stays pending as it is.
    Keep,
    /// The order stays pending under its id, with this type from now on.
    Convert(OrderType),
    /// The order is filled at this price.
    Fill(i64),
}

/// The price is at the limit or better for that side: no higher for a buy, no
/// lower for a sell.
pub open spec fn limit_reached(side: OrderSide, price: int, limit: int) -> bool {
    match side {
        OrderSide::Buy => price <= limit,
        OrderSide::Sell => price >= limit,
    }
}

/// The price has reached the stop for that side: no lower for a buy, no
/// higher for a sell.
pub open spec fn stop_reached(side: OrderSide, price: int, stop: int) -> bool {
    match side {
        OrderSide::Buy => price >= stop,
        OrderSide::Sell => price <= stop,
    }
}

/// The order type is looked at on the first tick of a session only.
pub open spec fn session_gated(order_type: OrderType) -> bool {
    order_type is MOO || order_type is MOC || order_type is LOO || order_type is LOC
}

/// What a tick does to a pending order of that type and side, given the
/// tick's close, the close of the tick before it if there was one, and
/// whether the tick is the first of a session.
///
/// * A market order fills at the close.
/// * A limit order fills at the close once the close is at the limit or
///   better.
/// * A stop order becomes a market order once the close reaches the stop.
/// * A stop-limit order becomes a limit order once the close reaches the stop
///   and is not past the limit.
/// * The orders on open and on close are looked at only on the first tick of
///   a session. On open they go by the close of that tick; on close they go
///   by the close of the tick before it, and wait if there is none.
pub open spec fn decide(
    order_type: OrderType,
    side: OrderSide,
    close: i64,
    previous_close: Option<i64>,
    new_session: bool,
) -> Decision {
    match order_type {
        OrderType::Market => Decision::Fill(close),
        OrderType::Limit(limit) => if limit_reached(side, close as int, limit as int) {
            Decision::Fill(close)
        } else {
            Decision::Keep
        },
        OrderType::Stop(stop) => if stop_reached(side, close as int, stop as int) {
            Decision::Convert(OrderType::Market)
        } else {
            Decision::Keep
        },
        OrderType::StopLimit(stop, limit) => if stop_reached(side, close as int, stop as int)
            && limit_reached(side, close as int, limit as int) {
            Decision::Convert(OrderType::Limit(limit))
        } else {
            Decision::Keep
        },
        OrderType::MOO => if new_session {
            Decision::Fill(close)
        } else {
            Decision::Keep
        },
        OrderType::LOO(limit) => if new_session && limit_reached(side, close as int, limit as int) {
            Decision::Fill(close)
        } else {
            Decision::Keep
        },
        OrderType::MOC => match previous_close {
            Some(before) if new_session => Decision::Fill(before),
            _ => Decision::Keep,
        },
        OrderType::LOC(limit) => match previous_close {
            Some(before) if new_session && limit_reached(side, before as int, limit as int) =>
                Decision::Fill(before),
            _ => Decision::Keep,
        },
    }
}

/// Whether the price is at the limit or better for that side.
pub fn at_limit(side: OrderSide, price: i64, limit: i64) -> (reached: bool)
    ensures
        reached == limit_reached(side, price as int, limit as int),
{
    match side {
        OrderSide::Buy => price <= limit,
        OrderSide::Sell => price >= limit,
    }
}

/// Whether the price has reached the stop for that side.
pub fn at_stop(side: OrderSide, price: i64, stop: i64) -> (reached: bool)
    ensures
        reached == stop_reached(side, price as int, stop as int),
{
    match side {
        OrderSide::Buy => price >= stop,
        OrderSide::Sell => price <= stop,
    }
}

/// Evaluates a pending order of that type and side against a tick.
pub fn evaluate(
    order_type: OrderType,
    side: OrderSide,
    close: i64,
    previous_close: Option<i64>,
    new_session: bool,
) -> (decision: Decision)
    ensures
        decision == decide(order_type, side, close, previous_close, new_session),
{
    match order_type {
        OrderType::Market => Decision::Fill(close),
        OrderType::Limit(limit) => {
            if at_limit(side, close, limit) {
                Decision::Fill(close)
            } else {
                Decision::Keep
            }
        },
        OrderType::Stop(stop) => {
            if at_stop(side, close, stop) {
                Decision::Convert(OrderType::Market)
            } else {
                Decision::Keep
            }
        },
        OrderType::StopLimit(stop, limit) => {
            if at_stop(side, close, stop) && at_limit(side, close, limit) {
                Decision::Convert(OrderType::Limit(limit))
            } else {
                Decision::Keep
            }
        },
        OrderType::MOO => {
            if new_session {
                Decision::Fill(close)
            } else {
                Decision::Keep
            }
        },
        OrderType::LOO(limit) => {
            if new_session && at_limit(side, close, limit) {
                Decision::Fill(close)
            } else {
                Decision::Keep
            }
        },
        OrderType::MOC => {
            match previous_close {
                Some(before) => {
                    if new_session {
                        Decision::Fill(before)
                    } else {
                        Decision::Keep
                    }
                },
                None => Decision::Keep,
            }
        },
        OrderType::LOC(limit) => {
            match previous_close {
                Some(before) => {
                    if new_session && at_limit(side, before, limit) {
                        Decision::Fill(before)
                    } else {
                        Decision::Keep
                    }
                },
                None => Decision::Keep,
            }
        },
    }
}

} // verus!
