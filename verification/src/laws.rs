//! What holds of the engine whatever the orders and the ticks: each law is
//! stated over the model and proved from the definitions.
use crate::book::{
    book_get, book_has, book_remove, book_unique, lemma_book_remove, lemma_book_submit,
};
use crate::clock::{elapsed, is_new_session, SESSION_GAP_NANOS};
use crate::frame::{
    lemma_only_others_twice, lemma_pass_frame, only_others_filled, quiet,
};
use crate::ledger::{
    average_price, filled_position, is_flat, ledger_fill, ledger_open, ledger_position, magnitude,
    same_side, signed_quantity, LedgerModel,
};
use crate::matching::{decide, session_gated, Decision};
use crate::model::{
    actions_weight, book_weight, lemma_actions_weight_concat, lemma_book_weight_submit,
    lemma_book_weight_withdraw, BrokerModel,
};
use crate::types::{
    ActionModel, BrokerError, OrderId, OrderModel, OrderSide, OrderType, PositionModel, Ticker,
    POSITION_EPSILON,
};
use vstd::prelude::*;

verus! {

/// One fill of a sequence of fills in one symbol: its side, its quantity and
/// the price it was filled at.
pub struct FillModel {
    pub side: OrderSide,
    pub quantity: nat,
    pub price: int,
}

/// The sum of the quantities of those fills that are on the side.
pub open spec fn side_quantity(fills: Seq<FillModel>, side: OrderSide) -> int
    decreases fills.len(),
{
    if fills.len() == 0 {
        0
    } else if fills.last().side == side {
        side_quantity(fills.drop_last(), side) + fills.last().quantity
    } else {
        side_quantity(fills.drop_last(), side)
    }
}

/// The sum of quantity times price over those fills that are on the side.
pub open spec fn side_value(fills: Seq<FillModel>, side: OrderSide) -> int
    decreases fills.len(),
{
    if fills.len() == 0 {
        0
    } else if fills.last().side == side {
        side_value(fills.drop_last(), side) + fills.last().quantity * fills.last().price
    } else {
        side_value(fills.drop_last(), side)
    }
}

/// The ledger after the fills are booked in the symbol, one after the other.
pub open spec fn ledger_fills(ledger: LedgerModel, symbol: Seq<char>, fills: Seq<FillModel>) -> LedgerModel
    decreases fills.len(),
{
    if fills.len() == 0 {
        ledger
    } else {
        ledger_fill(
            ledger_fills(ledger, symbol, fills.drop_last()),
            symbol,
            fills.last().side,
            fills.last().quantity,
            fills.last().price,
        )
    }
}

/// The sign of a side: one for a buy, minus one for a sell.
pub open spec fn direction(side: OrderSide) -> int {
    match side {
        OrderSide::Buy => 1,
        OrderSide::Sell => -1,
    }
}

/// The side that an amount is held on: bought if it is long, sold if short.
pub open spec fn side_of(amount: int) -> OrderSide {
    if amount > 0 {
        OrderSide::Buy
    } else {
        OrderSide::Sell
    }
}

/// The amount held after the fills, booked one after the other on a symbol
/// in which nothing was held: the signed sum of the quantities, taken back
/// to nothing each time it counts as flat.
pub open spec fn amount_after(fills: Seq<FillModel>) -> int
    decreases fills.len(),
{
    if fills.len() == 0 {
        0
    } else {
        let amount = amount_after(fills.drop_last()) + signed_quantity(
            fills.last().side,
            fills.last().quantity,
        );
        if is_flat(amount) {
            0
        } else {
            amount
        }
    }
}

/// How many of the fills came before the one that opened the position held
/// at the end: the last fill that found the symbol flat, or held on the
/// other side.
pub open spec fn opened_after(fills: Seq<FillModel>) -> int
    decreases fills.len(),
{
    if fills.len() == 0 {
        0
    } else {
        let before = amount_after(fills.drop_last());
        let amount = before + signed_quantity(fills.last().side, fills.last().quantity);
        if same_side(before, amount) {
            opened_after(fills.drop_last())
        } else {
            fills.len() - 1
        }
    }
}

/// Whatever the fills booked on a flat symbol, on either side and in any
/// order, the position held at the end has an average price that is the
/// quantity-weighted mean of the fills on its side since it was opened.
///
/// The fill that opened it counts with what it left on that side: all of it
/// where the symbol was flat, the rest of it where it took a position to the
/// other side. Fills against the position count for nothing. Where the
/// amount at the end counts as flat there is no position. The other symbols
/// stay as they were.
pub proof fn law_average_is_weighted_mean(
    ledger: LedgerModel,
    symbol: Seq<char>,
    fills: Seq<FillModel>,
)
    requires
        !ledger.contains_key(symbol),
    ensures
        ledger_fills(ledger, symbol, fills).contains_key(symbol) == (amount_after(fills) != 0),
        ledger_fills(ledger, symbol, fills).remove(symbol) == ledger,
        amount_after(fills) != 0 ==> ({
            let held = ledger_fills(ledger, symbol, fills)[symbol];
            let first = opened_after(fills);
            let opening = magnitude(amount_after(fills.take(first + 1)));
            let later = fills.skip(first + 1);
            let side = side_of(held.amount);
            &&& 0 <= first < fills.len()
            &&& !is_flat(held.amount)
            &&& held.amount == amount_after(fills)
            &&& side_of(amount_after(fills.take(first + 1))) == side
            &&& held.entered == opening + side_quantity(later, side)
            &&& held.cost == opening * fills[first].price + side_value(later, side)
            &&& held.entered >= magnitude(held.amount)
            &&& average_price(held) == (opening * fills[first].price + side_value(later, side)) / (
            opening + side_quantity(later, side))
        }),
    decreases fills.len(),
{
    if fills.len() == 0 {
        assert(ledger.remove(symbol) =~= ledger);
    } else {
        let rest = fills.drop_last();
        let last = fills.last();
        law_average_is_weighted_mean(ledger, symbol, rest);
        let before = ledger_fills(ledger, symbol, rest);
        let after = ledger_fills(ledger, symbol, fills);
        let held = ledger_position(before, symbol);
        assert(held.amount == amount_after(rest));
        let amount = held.amount + signed_quantity(last.side, last.quantity);
        assert(after.remove(symbol) =~= before.remove(symbol));
        assert(last.quantity == 0 ==> last.quantity * last.price == 0) by (nonlinear_arith);
        if !is_flat(amount) {
            let side = side_of(amount);
            if same_side(held.amount, amount) {
                let first = opened_after(rest);
                assert(opened_after(fills) == first);
                assert(fills.take(first + 1) =~= rest.take(first + 1));
                let later = rest.skip(first + 1);
                assert(fills.skip(first + 1) =~= later.push(last));
                assert(later.push(last).drop_last() =~= later);
                assert(later.push(last).last() == last);
                assert(fills[first] == rest[first]);
                assert(side_of(held.amount) == side);
            } else {
                assert(opened_after(fills) == fills.len() - 1);
                assert(fills.take(fills.len() as int) =~= fills);
                assert(fills.skip(fills.len() as int) =~= Seq::<FillModel>::empty());
                assert(amount_after(fills) == amount);
            }
        }
    }
}

/// A run of fills on one side, booked on a flat symbol, leaves a position
/// whose amount is the sum of the quantities, with the sign of the side, and
/// into which all of them entered: the average price is the
/// quantity-weighted mean of the fill prices. The first fill has to open a
/// position, that is, to be of more than the flat amount. The other symbols
/// stay as they were.
pub proof fn law_one_sided_run_averages_all(
    ledger: LedgerModel,
    symbol: Seq<char>,
    side: OrderSide,
    fills: Seq<FillModel>,
)
    requires
        !ledger.contains_key(symbol),
        fills.len() > 0,
        forall|i: int| 0 <= i < fills.len() ==> (#[trigger] fills[i]).side == side,
        fills[0].quantity > POSITION_EPSILON,
    ensures
        ledger_fills(ledger, symbol, fills).contains_key(symbol),
        ledger_fills(ledger, symbol, fills)[symbol] == (PositionModel {
            amount: direction(side) * side_quantity(fills, side),
            entered: side_quantity(fills, side),
            cost: side_value(fills, side),
        }),
        side_quantity(fills, side) > POSITION_EPSILON,
        average_price(ledger_fills(ledger, symbol, fills)[symbol]) == side_value(fills, side)
            / side_quantity(fills, side),
        ledger_fills(ledger, symbol, fills).remove(symbol) == ledger,
    decreases fills.len(),
{
    let rest = fills.drop_last();
    let last = fills.last();
    assert(last.side == side);
    if rest.len() == 0 {
        assert(side_quantity(rest, side) == 0 && side_value(rest, side) == 0);
        assert(ledger_fills(ledger, symbol, rest) == ledger);
        assert(fills[0] == last);
    } else {
        assert(rest[0] == fills[0]);
        assert forall|i: int| 0 <= i < rest.len() implies (#[trigger] rest[i]).side == side by {
            assert(rest[i] == fills[i]);
        }
        law_one_sided_run_averages_all(ledger, symbol, side, rest);
    }
    let before = ledger_fills(ledger, symbol, rest);
    let held = ledger_position(before, symbol);
    assert(held.amount == direction(side) * side_quantity(rest, side));
    assert(signed_quantity(side, last.quantity) == direction(side) * last.quantity);
    assert(direction(side) * (side_quantity(rest, side) + last.quantity) == direction(side)
        * side_quantity(rest, side) + direction(side) * last.quantity) by (nonlinear_arith);
    assert(last.quantity == 0 ==> last.quantity * last.price == 0) by (nonlinear_arith);
    let after = filled_position(before, symbol, side, last.quantity, last.price);
    assert(after.amount == direction(side) * side_quantity(fills, side));
    assert(!is_flat(after.amount));
    assert(magnitude(after.amount) == side_quantity(fills, side));
    assert(ledger_fills(ledger, symbol, fills).remove(symbol) =~= before.remove(symbol));
    assert(ledger.remove(symbol) =~= ledger);
}

/// A fill on the side of the position enters it: the amount grows by the
/// quantity, and the average price becomes the mean of what was entered
/// before and of the fill, each weighted by its quantity.
pub proof fn law_entering_fill_joins_average(
    ledger: LedgerModel,
    symbol: Seq<char>,
    side: OrderSide,
    quantity: nat,
    price: int,
)
    requires
        ledger_open(ledger),
        ledger.contains_key(symbol),
        side == side_of(ledger[symbol].amount),
    ensures
        ledger_fill(ledger, symbol, side, quantity, price).contains_key(symbol),
        ledger_fill(ledger, symbol, side, quantity, price)[symbol] == (PositionModel {
            amount: ledger[symbol].amount + signed_quantity(side, quantity),
            entered: ledger[symbol].entered + quantity,
            cost: ledger[symbol].cost + quantity * price,
        }),
        average_price(ledger_fill(ledger, symbol, side, quantity, price)[symbol]) == (
        ledger[symbol].cost + quantity * price) / (ledger[symbol].entered + quantity),
{
    assert(quantity == 0 ==> quantity * price == 0) by (nonlinear_arith);
}

/// A fill against the position that leaves some of it on its side takes the
/// quantity from the amount and leaves the average price of what remains as
/// it was.
pub proof fn law_reducing_fill_keeps_average(
    ledger: LedgerModel,
    symbol: Seq<char>,
    side: OrderSide,
    quantity: nat,
    price: int,
)
    requires
        ledger.contains_key(symbol),
        side != side_of(ledger[symbol].amount),
        same_side(ledger[symbol].amount, ledger[symbol].amount + signed_quantity(side, quantity)),
        !is_flat(ledger[symbol].amount + signed_quantity(side, quantity)),
    ensures
        ledger_fill(ledger, symbol, side, quantity, price).contains_key(symbol),
        ledger_fill(ledger, symbol, side, quantity, price)[symbol] == (PositionModel {
            amount: ledger[symbol].amount + signed_quantity(side, quantity),
            ..ledger[symbol]
        }),
        average_price(ledger_fill(ledger, symbol, side, quantity, price)[symbol]) == average_price(
            ledger[symbol],
        ),
{
}

/// A fill that takes the position past zero, or that finds the symbol flat,
/// opens a position on the fill's side: it holds what the fill left there,
/// entered at the fill's price, which is its average price.
pub proof fn law_opening_fill_sets_price(
    ledger: LedgerModel,
    symbol: Seq<char>,
    side: OrderSide,
    quantity: nat,
    price: int,
)
    requires
        !same_side(
            ledger_position(ledger, symbol).amount,
            ledger_position(ledger, symbol).amount + signed_quantity(side, quantity),
        ),
        !is_flat(ledger_position(ledger, symbol).amount + signed_quantity(side, quantity)),
    ensures
        ledger_fill(ledger, symbol, side, quantity, price).contains_key(symbol),
        ledger_fill(ledger, symbol, side, quantity, price)[symbol] == ({
            let amount = ledger_position(ledger, symbol).amount + signed_quantity(side, quantity);
            PositionModel { amount, entered: magnitude(amount), cost: magnitude(amount) * price }
        }),
        side_of(ledger_fill(ledger, symbol, side, quantity, price)[symbol].amount) == side,
        average_price(ledger_fill(ledger, symbol, side, quantity, price)[symbol]) == price,
{
    let amount = ledger_position(ledger, symbol).amount + signed_quantity(side, quantity);
    let left = magnitude(amount);
    assert((left * price) / left == price) by (nonlinear_arith)
        requires
            left > 0,
    ;
}

/// A fill that brings the amount held to within the flat amount of zero
/// closes the position: the ledger has no entry for the symbol afterwards.
/// Any other fill leaves an entry, and every entry stays a position.
pub proof fn law_flat_position_is_closed(
    ledger: LedgerModel,
    symbol: Seq<char>,
    side: OrderSide,
    quantity: nat,
    price: int,
)
    ensures
        ledger_fill(ledger, symbol, side, quantity, price).contains_key(symbol) == !is_flat(
            ledger_position(ledger, symbol).amount + signed_quantity(side, quantity),
        ),
        ledger_open(ledger) ==> ledger_open(ledger_fill(ledger, symbol, side, quantity, price)),
{
}

/// Selling what is held, to within the flat amount, removes the position.
pub proof fn law_selling_out_closes(
    ledger: LedgerModel,
    symbol: Seq<char>,
    quantity: nat,
    price: int,
)
    requires
        ledger.contains_key(symbol),
        -POSITION_EPSILON <= ledger[symbol].amount - quantity <= POSITION_EPSILON,
    ensures
        !ledger_fill(ledger, symbol, OrderSide::Sell, quantity, price).contains_key(symbol),
{
}

/// Running actions touches nothing but the pending orders and the record of
/// cancellations, and never leaves two orders pending under one id.
pub proof fn law_actions_leave_account(state: BrokerModel, agenda: Seq<ActionModel>)
    requires
        book_unique(state.pending),
    ensures
        state.run(agenda).0.same_account(state),
        book_unique(state.run(agenda).0.pending),
    decreases book_weight(state.pending) + actions_weight(agenda),
{
    if agenda.len() > 0 {
        let rest = agenda.drop_first();
        match agenda[0] {
            ActionModel::Submit(id, order) => {
                lemma_book_weight_submit(state.pending, id, order);
                lemma_book_submit(state.pending, id, order);
                law_actions_leave_account(state.submit(id, order), rest);
            },
            ActionModel::Cancel(id) => {
                if book_has(state.pending, id) {
                    let hooks = book_get(state.pending, id).on_cancel;
                    lemma_book_weight_withdraw(state.pending, id);
                    lemma_actions_weight_concat(hooks, rest);
                    lemma_book_remove(state.pending, id);
                    law_actions_leave_account(state.withdraw(id), hooks + rest);
                }
            },
            ActionModel::Fail(_) => {},
        }
    }
}

/// Cancelling an id under which nothing is pending fails with
/// `OrderIdNotFound` and leaves the state as it was.
pub proof fn law_cancel_of_unknown_id(state: BrokerModel, id: OrderId)
    requires
        !book_has(state.pending, id),
    ensures
        state.cancel(id) == (state, Err::<(), BrokerError>(BrokerError::OrderIdNotFound)),
{
    let agenda = seq![ActionModel::Cancel(id)];
    assert(agenda.len() == 1 && agenda[0] == ActionModel::Cancel(id));
}

/// Cancelling a pending order takes it out of the book and adds it to the
/// record of cancellations; cash, positions and fills stay as they were.
pub proof fn law_cancel_of_pending_id(state: BrokerModel, id: OrderId)
    requires
        book_unique(state.pending),
        book_has(state.pending, id),
    ensures
        state.cancel(id) == state.withdraw(id).run(book_get(state.pending, id).on_cancel),
        state.cancel(id).0.same_account(state),
        !book_has(state.withdraw(id).pending, id),
        state.withdraw(id).canceled.last() == book_get(state.pending, id).canceled(id),
{
    let agenda = seq![ActionModel::Cancel(id)];
    let hooks = book_get(state.pending, id).on_cancel;
    assert(agenda.len() == 1 && agenda[0] == ActionModel::Cancel(id));
    assert(hooks + agenda.drop_first() =~= hooks);
    lemma_book_remove(state.pending, id);
    law_actions_leave_account(state.withdraw(id), hooks);
}

/// A buy that is filled takes exactly quantity times price out of cash, and a
/// sell that is filled puts exactly as much in, whatever the order's actions
/// do afterwards; the fill is the last on record when they start.
pub proof fn law_fill_moves_cash_by_value(
    state: BrokerModel,
    id: OrderId,
    order: OrderModel,
    price: int,
)
    requires
        book_unique(state.pending),
        state.fill_fits(order, price),
    ensures
        order.side == OrderSide::Buy ==> state.execute(id, order, price).0.cash == state.cash
            - order.quantity * price,
        order.side == OrderSide::Sell ==> state.execute(id, order, price).0.cash == state.cash
            + order.quantity * price,
        state.execute(id, order, price).0.positions == ledger_fill(
            state.positions,
            order.symbol,
            order.side,
            order.quantity,
            price,
        ),
        state.execute(id, order, price).0.trades == state.fill(id, order, price).trades,
        state.fill(id, order, price).trades.last().order_id == id,
        state.fill(id, order, price).trades.last().quantity == order.quantity,
        state.fill(id, order, price).trades.last().price == price,
{
    law_actions_leave_account(state.fill(id, order, price), order.on_execute);
    assert((-(order.quantity as int)) * price == -(order.quantity * price)) by (nonlinear_arith);
}

/// The evaluation of a pending order that the matching rules keep changes
/// nothing at all.
pub proof fn law_kept_order_changes_nothing(state: BrokerModel, id: OrderId, tick: Ticker)
    requires
        book_has(state.pending, id),
        decide(
            book_get(state.pending, id).order_type,
            book_get(state.pending, id).side,
            tick.close,
            state.previous_close(),
            state.new_session(),
        ) == Decision::Keep,
    ensures
        state.visit(id, tick) == (state, Ok::<(), BrokerError>(())),
{
}

/// The evaluation of a limit buy against a tick that closes above its limit
/// changes nothing, and so does that of a limit sell against a tick that
/// closes below: in no state is such an order filled on such a tick.
pub proof fn law_evaluation_keeps_limit_beyond_price(state: BrokerModel, id: OrderId, tick: Ticker)
    requires
        book_has(state.pending, id),
        book_get(state.pending, id).order_type matches OrderType::Limit(limit) && match book_get(
            state.pending,
            id,
        ).side {
            OrderSide::Buy => tick.close > limit,
            OrderSide::Sell => tick.close < limit,
        },
    ensures
        state.visit(id, tick) == (state, Ok::<(), BrokerError>(())),
{
}

/// The evaluation of a limit order against a tick that closes at its limit
/// or better takes the order out of the book and executes it at the close.
pub proof fn law_evaluation_fills_limit_at_price(state: BrokerModel, id: OrderId, tick: Ticker)
    requires
        book_has(state.pending, id),
        book_get(state.pending, id).order_type matches OrderType::Limit(limit) && match book_get(
            state.pending,
            id,
        ).side {
            OrderSide::Buy => tick.close <= limit,
            OrderSide::Sell => tick.close >= limit,
        },
        state.fill_fits(book_get(state.pending, id), tick.close as int),
    ensures
        state.visit(id, tick) == (BrokerModel {
            pending: book_remove(state.pending, id),
            ..state
        }).execute(id, book_get(state.pending, id), tick.close as int),
{
}

/// The evaluation of a stop buy against a tick that closes below its stop
/// changes nothing, and so does that of a stop sell against a tick that
/// closes above.
pub proof fn law_evaluation_keeps_stop_before_price(state: BrokerModel, id: OrderId, tick: Ticker)
    requires
        book_has(state.pending, id),
        book_get(state.pending, id).order_type matches OrderType::Stop(stop) && match book_get(
            state.pending,
            id,
        ).side {
            OrderSide::Buy => tick.close < stop,
            OrderSide::Sell => tick.close > stop,
        },
    ensures
        state.visit(id, tick) == (state, Ok::<(), BrokerError>(())),
{
}

/// The evaluation of a stop buy against a tick that closes at or above its
/// stop leaves a market order under the same id, dated at the clock, and
/// changes nothing else; so does that of a stop sell against a tick that
/// closes at or below its stop.
pub proof fn law_evaluation_converts_stop_at_price(state: BrokerModel, id: OrderId, tick: Ticker)
    requires
        book_has(state.pending, id),
        book_get(state.pending, id).order_type matches OrderType::Stop(stop) && match book_get(
            state.pending,
            id,
        ).side {
            OrderSide::Buy => tick.close >= stop,
            OrderSide::Sell => tick.close <= stop,
        },
    ensures
        state.visit(id, tick) == (
            state.submit(
                id,
                (OrderModel {
                    order_type: OrderType::Market,
                    datetime: state.clock,
                    ..book_get(state.pending, id)
                }),
            ),
            Ok::<(), BrokerError>(()),
        ),
{
}

/// The evaluation of an order on open or on close changes nothing where the
/// clock stands eight hours or less after the previous tick.
pub proof fn law_evaluation_keeps_session_orders(state: BrokerModel, id: OrderId, tick: Ticker)
    requires
        book_has(state.pending, id),
        session_gated(book_get(state.pending, id).order_type),
        state.previous matches Some(before) && elapsed(before.datetime, state.clock)
            <= SESSION_GAP_NANOS,
    ensures
        !state.new_session(),
        state.visit(id, tick) == (state, Ok::<(), BrokerError>(())),
{
}

/// What a step decides for the order pending under an id: what the rules
/// decide at the tick, the clock standing at the tick's time.
pub open spec fn step_decision(state: BrokerModel, id: OrderId, tick: Ticker) -> Decision {
    (BrokerModel { clock: tick.datetime, ..state }).decision(id, tick)
}

/// The later state holds the order that the earlier state holds under the
/// id, unchanged, with no fill of the id added, and its book is in order and
/// quiet about the id.
pub open spec fn still_pending(earlier: BrokerModel, later: BrokerModel, id: OrderId) -> bool {
    &&& book_unique(later.pending)
    &&& quiet(later.pending, id)
    &&& book_has(later.pending, id)
    &&& book_get(later.pending, id) == book_get(earlier.pending, id)
    &&& only_others_filled(earlier.trades, later.trades, id)
}

/// An order that the rules keep at a tick goes through the step untouched:
/// it is still pending afterwards, the same order, and the step has added no
/// fill of its id. This holds whatever the other orders do, as long as none
/// of them carries an action that names the id.
pub proof fn law_kept_order_survives_step(state: BrokerModel, id: OrderId, tick: Ticker)
    requires
        book_unique(state.pending),
        book_has(state.pending, id),
        quiet(state.pending, id),
        step_decision(state, id, tick) == Decision::Keep,
    ensures
        still_pending(state, state.next(tick).0, id),
{
    let started = BrokerModel { clock: tick.datetime, ..state };
    lemma_pass_frame(started, id, tick);
}

/// An order that the rules convert at a tick is, after a step that went
/// well, pending under its id with the new type, dated at the tick's time;
/// the step has added no fill of its id. After a step that failed it is
/// either converted or still as it was.
pub proof fn law_converted_order_survives_step(
    state: BrokerModel,
    id: OrderId,
    tick: Ticker,
    order_type: OrderType,
)
    requires
        book_unique(state.pending),
        book_has(state.pending, id),
        quiet(state.pending, id),
        step_decision(state, id, tick) == Decision::Convert(order_type),
    ensures
        ({
            let (after, result) = state.next(tick);
            let converted = OrderModel {
                order_type,
                datetime: tick.datetime,
                ..book_get(state.pending, id)
            };
            &&& book_unique(after.pending)
            &&& quiet(after.pending, id)
            &&& book_has(after.pending, id)
            &&& only_others_filled(state.trades, after.trades, id)
            &&& book_get(after.pending, id) == converted || book_get(after.pending, id)
                == book_get(state.pending, id)
            &&& result is Ok ==> book_get(after.pending, id) == converted
        }),
{
    let started = BrokerModel { clock: tick.datetime, ..state };
    lemma_pass_frame(started, id, tick);
}

/// The rules keep an order of that type and side at every tick of a feed,
/// given the tick that came before the feed.
pub open spec fn kept_throughout(
    order_type: OrderType,
    side: OrderSide,
    previous: Option<Ticker>,
    ticks: Seq<Ticker>,
) -> bool
    decreases ticks.len(),
{
    if ticks.len() == 0 {
        true
    } else {
        &&& decide(
            order_type,
            side,
            ticks[0].close,
            match previous {
                Some(before) => Some(before.close),
                None => None,
            },
            is_new_session(
                match previous {
                    Some(before) => Some(before.datetime),
                    None => None,
                },
                ticks[0].datetime,
            ),
        ) == Decision::Keep
        &&& kept_throughout(order_type, side, Some(ticks[0]), ticks.drop_first())
    }
}

/// An order that the rules keep at every tick of a feed is still pending,
/// untouched and unfilled, when the feed has been gone through or the first
/// step has failed.
pub proof fn law_kept_order_survives_feed(state: BrokerModel, id: OrderId, ticks: Seq<Ticker>)
    requires
        book_unique(state.pending),
        book_has(state.pending, id),
        quiet(state.pending, id),
        kept_throughout(
            book_get(state.pending, id).order_type,
            book_get(state.pending, id).side,
            state.previous,
            ticks,
        ),
    ensures
        still_pending(state, state.replay(ticks).0, id),
    decreases ticks.len(),
{
    if ticks.len() == 0 {
        assert(state.trades.subrange(0, state.trades.len() as int) =~= state.trades);
    } else {
        law_kept_order_survives_step(state, id, ticks[0]);
        let (stepped, result) = state.next(ticks[0]);
        if result is Ok {
            assert(stepped.previous == Some(ticks[0]));
            law_kept_order_survives_feed(stepped, id, ticks.drop_first());
            lemma_only_others_twice(
                state.trades,
                stepped.trades,
                stepped.replay(ticks.drop_first()).0.trades,
                id,
            );
        }
    }
}

/// Every tick of the feed closes beyond the price: above it if `above`,
/// below it if not.
pub open spec fn closes_beyond(ticks: Seq<Ticker>, price: i64, above: bool) -> bool {
    forall|k: int|
        0 <= k < ticks.len() ==> if above {
            (#[trigger] ticks[k]).close > price
        } else {
            ticks[k].close < price
        }
}

/// A limit buy is never filled on ticks that close above its limit, and a
/// limit sell never on ticks that close below: over a feed of such ticks the
/// order stays pending, untouched.
pub proof fn law_limit_waits_for_its_price(state: BrokerModel, id: OrderId, ticks: Seq<Ticker>)
    requires
        book_unique(state.pending),
        book_has(state.pending, id),
        quiet(state.pending, id),
        book_get(state.pending, id).order_type matches OrderType::Limit(limit) && closes_beyond(
            ticks,
            limit,
            book_get(state.pending, id).side == OrderSide::Buy,
        ),
    ensures
        still_pending(state, state.replay(ticks).0, id),
{
    let order = book_get(state.pending, id);
    lemma_beyond_is_kept(order.order_type, order.side, state.previous, ticks);
    law_kept_order_survives_feed(state, id, ticks);
}

/// A stop buy stays pending, untouched, over ticks that close below its
/// stop, and a stop sell over ticks that close above.
pub proof fn law_stop_waits_for_its_price(state: BrokerModel, id: OrderId, ticks: Seq<Ticker>)
    requires
        book_unique(state.pending),
        book_has(state.pending, id),
        quiet(state.pending, id),
        book_get(state.pending, id).order_type matches OrderType::Stop(stop) && closes_beyond(
            ticks,
            stop,
            book_get(state.pending, id).side == OrderSide::Sell,
        ),
    ensures
        still_pending(state, state.replay(ticks).0, id),
{
    let order = book_get(state.pending, id);
    lemma_beyond_is_kept(order.order_type, order.side, state.previous, ticks);
    law_kept_order_survives_feed(state, id, ticks);
}

/// At the first tick that closes at or above its stop, a stop buy becomes a
/// market order under the same id, dated at that tick, and nothing of it is
/// filled; a stop sell does at the first tick that closes at or below its
/// stop. The step has to go well: a failure of another order may end it
/// before the order's turn.
pub proof fn law_stop_becomes_market_order(state: BrokerModel, id: OrderId, tick: Ticker)
    requires
        book_unique(state.pending),
        book_has(state.pending, id),
        quiet(state.pending, id),
        book_get(state.pending, id).order_type matches OrderType::Stop(stop) && match book_get(
            state.pending,
            id,
        ).side {
            OrderSide::Buy => tick.close >= stop,
            OrderSide::Sell => tick.close <= stop,
        },
    ensures
        only_others_filled(state.trades, state.next(tick).0.trades, id),
        book_has(state.next(tick).0.pending, id),
        state.next(tick).1 is Ok ==> book_get(state.next(tick).0.pending, id) == (OrderModel {
            order_type: OrderType::Market,
            datetime: tick.datetime,
            ..book_get(state.pending, id)
        }),
{
    law_converted_order_survives_step(state, id, tick, OrderType::Market);
}

/// Going through a feed and then one tick more is going through the feed
/// with that tick at its end.
pub proof fn lemma_replay_one_more(state: BrokerModel, ticks: Seq<Ticker>, tick: Ticker)
    ensures
        state.replay(ticks.push(tick)).0 == if state.replay(ticks).1 is Ok {
            state.replay(ticks).0.next(tick).0
        } else {
            state.replay(ticks).0
        },
        state.replay(ticks.push(tick)).1 is Ok == (state.replay(ticks).1 is Ok && state.replay(
            ticks,
        ).0.next(tick).1 is Ok),
    decreases ticks.len(),
{
    let longer = ticks.push(tick);
    if ticks.len() == 0 {
        assert(longer.drop_first() =~= Seq::<Ticker>::empty());
        assert(longer[0] == tick);
        let stepped = state.next(tick).0;
        assert(stepped.replay(longer.drop_first()).0 == stepped);
        assert(stepped.replay(longer.drop_first()).1 is Ok);
    } else {
        assert(longer[0] == ticks[0]);
        assert(longer.drop_first() =~= ticks.drop_first().push(tick));
        let (stepped, result) = state.next(ticks[0]);
        if result is Ok {
            lemma_replay_one_more(stepped, ticks.drop_first(), tick);
        }
    }
}

/// A stop order stays as it is over the ticks that do not reach its stop,
/// and becomes a market order, dated at that tick, at the first tick that
/// does: over a feed that ends with the first such tick and is gone through
/// without failure, the order ends as a market order under its id, and
/// nothing of it has been filled.
pub proof fn law_stop_converts_at_first_reach(
    state: BrokerModel,
    id: OrderId,
    earlier: Seq<Ticker>,
    tick: Ticker,
)
    requires
        book_unique(state.pending),
        book_has(state.pending, id),
        quiet(state.pending, id),
        book_get(state.pending, id).order_type matches OrderType::Stop(stop) && closes_beyond(
            earlier,
            stop,
            book_get(state.pending, id).side == OrderSide::Sell,
        ) && match book_get(state.pending, id).side {
            OrderSide::Buy => tick.close >= stop,
            OrderSide::Sell => tick.close <= stop,
        },
        state.replay(earlier.push(tick)).1 is Ok,
    ensures
        book_has(state.replay(earlier.push(tick)).0.pending, id),
        book_get(state.replay(earlier.push(tick)).0.pending, id) == (OrderModel {
            order_type: OrderType::Market,
            datetime: tick.datetime,
            ..book_get(state.pending, id)
        }),
        only_others_filled(state.trades, state.replay(earlier.push(tick)).0.trades, id),
{
    lemma_replay_one_more(state, earlier, tick);
    law_stop_waits_for_its_price(state, id, earlier);
    let waited = state.replay(earlier).0;
    law_stop_becomes_market_order(waited, id, tick);
    lemma_only_others_twice(state.trades, waited.trades, waited.next(tick).0.trades, id);
}

/// Each tick of the feed follows the one before it, and the first the tick
/// before the feed, by eight hours or less.
pub open spec fn within_a_session(previous: Ticker, ticks: Seq<Ticker>) -> bool
    decreases ticks.len(),
{
    if ticks.len() == 0 {
        true
    } else {
        &&& elapsed(previous.datetime, ticks[0].datetime) <= SESSION_GAP_NANOS
        &&& within_a_session(ticks[0], ticks.drop_first())
    }
}

/// Orders on open and on close are never looked at on a feed whose ticks
/// follow one another, and the tick before the feed, by eight hours or less:
/// the order stays pending, untouched. (The first tick of all opens a
/// session; it is the tick before the feed here.)
pub proof fn law_session_orders_wait_for_a_session(
    state: BrokerModel,
    id: OrderId,
    ticks: Seq<Ticker>,
)
    requires
        book_unique(state.pending),
        book_has(state.pending, id),
        quiet(state.pending, id),
        session_gated(book_get(state.pending, id).order_type),
        state.previous matches Some(before) && within_a_session(before, ticks),
    ensures
        still_pending(state, state.replay(ticks).0, id),
{
    let order = book_get(state.pending, id);
    lemma_session_is_kept(order.order_type, order.side, state.previous->0, ticks);
    law_kept_order_survives_feed(state, id, ticks);
}

/// The rules keep a limit or stop order over ticks that close beyond its
/// price on the side that does not trigger it.
proof fn lemma_beyond_is_kept(
    order_type: OrderType,
    side: OrderSide,
    previous: Option<Ticker>,
    ticks: Seq<Ticker>,
)
    requires
        match order_type {
            OrderType::Limit(limit) => closes_beyond(ticks, limit, side == OrderSide::Buy),
            OrderType::Stop(stop) => closes_beyond(ticks, stop, side == OrderSide::Sell),
            _ => false,
        },
    ensures
        kept_throughout(order_type, side, previous, ticks),
    decreases ticks.len(),
{
    if ticks.len() > 0 {
        let rest = ticks.drop_first();
        match order_type {
            OrderType::Limit(limit) => {
                assert(closes_beyond(rest, limit, side == OrderSide::Buy)) by {
                    assert forall|k: int| 0 <= k < rest.len() implies if side == OrderSide::Buy {
                        (#[trigger] rest[k]).close > limit
                    } else {
                        rest[k].close < limit
                    } by {
                        assert(rest[k] == ticks[k + 1]);
                    }
                }
            },
            OrderType::Stop(stop) => {
                assert(closes_beyond(rest, stop, side == OrderSide::Sell)) by {
                    assert forall|k: int| 0 <= k < rest.len() implies if side == OrderSide::Sell {
                        (#[trigger] rest[k]).close > stop
                    } else {
                        rest[k].close < stop
                    } by {
                        assert(rest[k] == ticks[k + 1]);
                    }
                }
            },
            _ => {},
        }
        lemma_beyond_is_kept(order_type, side, Some(ticks[0]), rest);
    }
}

/// The rules keep an order on open or on close over ticks within a session.
proof fn lemma_session_is_kept(
    order_type: OrderType,
    side: OrderSide,
    previous: Ticker,
    ticks: Seq<Ticker>,
)
    requires
        session_gated(order_type),
        within_a_session(previous, ticks),
    ensures
        kept_throughout(order_type, side, Some(previous), ticks),
    decreases ticks.len(),
{
    if ticks.len() > 0 {
        lemma_session_is_kept(order_type, side, ticks[0], ticks.drop_first());
    }
}

/// Submitting, cancelling and stepping lead from valid states to valid
/// states.
pub proof fn law_validity_is_kept(state: BrokerModel, id: OrderId, order: OrderModel, tick: Ticker)
    requires
        state.valid(),
    ensures
        state.submit(id, order).valid(),
        state.cancel(id).0.valid(),
        state.visit(id, tick).0.valid(),
        state.next(tick).0.valid(),
{
    lemma_book_submit(state.pending, id, order);
    law_actions_leave_account(state, seq![ActionModel::Cancel(id)]);
    lemma_visit_keeps_validity(state, id, tick);
    let started = BrokerModel { clock: tick.datetime, ..state };
    lemma_process_keeps_validity(started, crate::book::book_ids(state.pending), tick);
}

/// The evaluation of one id leads from a valid state to a valid state.
proof fn lemma_visit_keeps_validity(state: BrokerModel, id: OrderId, tick: Ticker)
    requires
        state.valid(),
    ensures
        state.visit(id, tick).0.valid(),
{
    if book_has(state.pending, id) {
        let order = book_get(state.pending, id);
        match decide(
            order.order_type,
            order.side,
            tick.close,
            state.previous_close(),
            state.new_session(),
        ) {
            Decision::Keep => {},
            Decision::Convert(order_type) => {
                lemma_book_submit(
                    state.pending,
                    id,
                    (OrderModel { order_type, datetime: state.clock, ..order }),
                );
            },
            Decision::Fill(price) => {
                if state.fill_fits(order, price as int) {
                    lemma_book_remove(state.pending, id);
                    let taken = BrokerModel { pending: book_remove(state.pending, id), ..state };
                    law_actions_leave_account(
                        taken.fill(id, order, price as int),
                        order.on_execute,
                    );
                }
            },
        }
    }
}

/// The evaluation of some ids in turn leads from a valid state to a valid
/// state.
proof fn lemma_process_keeps_validity(state: BrokerModel, ids: Seq<OrderId>, tick: Ticker)
    requires
        state.valid(),
    ensures
        state.process(ids, tick).0.valid(),
    decreases ids.len(),
{
    if ids.len() > 0 {
        lemma_visit_keeps_validity(state, ids[0], tick);
        if state.visit(ids[0], tick).1 is Ok {
            lemma_process_keeps_validity(state.visit(ids[0], tick).0, ids.drop_first(), tick);
        }
    }
}

} // verus!
