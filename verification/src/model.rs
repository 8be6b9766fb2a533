//! The broker as a mathematical state, and each of its operations as a
//! function from state to state.
use crate::clock::is_new_session;
use crate::book::{
    book_get, book_has, book_ids, book_index, book_remove, book_submit, book_unique, BookModel,
};
use crate::ledger::{fill_in_range, ledger_fill, ledger_open, signed_quantity, LedgerModel};
use crate::matching::{decide, Decision};
use crate::types::{
    ActionModel, BrokerError, CanceledModel, OrderId, OrderModel, Ticker, Timestamp, TradeModel,
    RATE_SCALE,
};
use vstd::prelude::*;

verus! {

/// Model of a broker.
pub struct BrokerModel {
    pub name: Seq<char>,
    /// Cash at the start, in cash units.
    pub initial_cash: int,
    /// Commission rate, in rate units.
    pub commission: int,
    /// Margin fraction, in rate units.
    pub margin: int,
    pub exclusive_orders: bool,
    pub hedging: bool,
    pub logging: bool,
    /// The simulated time: that of the last tick.
    pub clock: Timestamp,
    /// Cash now, in cash units.
    pub cash: int,
    /// The pending orders, in book order.
    pub pending: BookModel,
    /// The cancellations so far, oldest first.
    pub canceled: Seq<CanceledModel>,
    /// The fills so far, oldest first.
    pub trades: Seq<TradeModel>,
    pub positions: LedgerModel,
    /// The last tick that was processed to its end.
    pub previous: Option<Ticker>,
}

/// A state, and how the operation that led to it ended.
pub type Outcome = (BrokerModel, Result<(), BrokerError>);

/// A measure of an order: one more than that of the actions it carries.
pub open spec fn order_weight(order: OrderModel) -> nat
    decreases order, 1nat,
{
    1 + actions_weight(order.on_execute) + actions_weight(order.on_cancel)
}

/// A measure of a sequence of actions: one for each, and for each submission
/// the measure of its order.
pub open spec fn actions_weight(actions: Seq<ActionModel>) -> nat
    decreases actions, 0nat,
{
    if actions.len() == 0 {
        0
    } else {
        let first: nat = match actions[0] {
            ActionModel::Submit(_, order) => 1 + order_weight(order),
            _ => 1,
        };
        first + actions_weight(actions.drop_first())
    }
}

/// A measure of a book: the sum of the measures of its orders.
pub open spec fn book_weight(book: BookModel) -> nat
    decreases book.len(),
{
    if book.len() == 0 {
        0
    } else {
        book_weight(book.drop_last()) + order_weight(book.last().1)
    }
}

/// The measure of two sequences of actions in a row is the sum of theirs.
pub proof fn lemma_actions_weight_concat(first: Seq<ActionModel>, second: Seq<ActionModel>)
    ensures
        actions_weight(first + second) == actions_weight(first) + actions_weight(second),
    decreases first.len(),
{
    if first.len() == 0 {
        assert(first + second =~= second);
    } else {
        assert((first + second).drop_first() =~= first.drop_first() + second);
        assert((first + second)[0] == first[0]);
        lemma_actions_weight_concat(first.drop_first(), second);
    }
}

/// Taking an order out of a book takes its measure off the book's.
pub proof fn lemma_book_weight_remove(book: BookModel, i: int)
    requires
        0 <= i < book.len(),
    ensures
        book_weight(book.remove(i)) + order_weight(book[i].1) == book_weight(book),
    decreases book.len(),
{
    if i == book.len() - 1 {
        assert(book.remove(i) =~= book.drop_last());
    } else {
        assert(book.remove(i).drop_last() =~= book.drop_last().remove(i));
        assert(book.remove(i).last() == book.last());
        lemma_book_weight_remove(book.drop_last(), i);
    }
}

/// Putting an order in place of another changes the book's measure by the
/// difference of theirs.
pub proof fn lemma_book_weight_update(book: BookModel, i: int, entry: (OrderId, OrderModel))
    requires
        0 <= i < book.len(),
    ensures
        book_weight(book.update(i, entry)) + order_weight(book[i].1) == book_weight(book)
            + order_weight(entry.1),
    decreases book.len(),
{
    if i == book.len() - 1 {
        assert(book.update(i, entry).drop_last() =~= book.drop_last());
    } else {
        assert(book.update(i, entry).drop_last() =~= book.drop_last().update(i, entry));
        assert(book.update(i, entry).last() == book.last());
        lemma_book_weight_update(book.drop_last(), i, entry);
    }
}

/// Submitting an order adds at most its measure to the book's.
pub proof fn lemma_book_weight_submit(book: BookModel, id: OrderId, order: OrderModel)
    ensures
        book_weight(book_submit(book, id, order)) <= book_weight(book) + order_weight(order),
{
    if book_has(book, id) {
        lemma_book_weight_update(book, book_index(book, id), (id, order));
    } else {
        assert(book.push((id, order)).drop_last() =~= book);
    }
}

/// Withdrawing a pending order takes its measure off the book's.
pub proof fn lemma_book_weight_withdraw(book: BookModel, id: OrderId)
    requires
        book_has(book, id),
    ensures
        book_weight(book_remove(book, id)) + order_weight(book_get(book, id)) == book_weight(book),
{
    lemma_book_weight_remove(book, book_index(book, id));
}

/// The largest commission rate, in rate units, either way: 10%.
pub const MAX_COMMISSION: i64 = 100_000;

impl BrokerModel {
    /// A broker as it is opened: all its cash in hand, nothing pending,
    /// nothing held, nothing recorded, no tick seen yet.
    pub open spec fn opening(
        name: Seq<char>,
        initial_cash: int,
        commission: int,
        margin: int,
        exclusive_orders: bool,
        hedging: bool,
        logging: bool,
        clock: Timestamp,
    ) -> BrokerModel {
        BrokerModel {
            name,
            initial_cash,
            commission,
            margin,
            exclusive_orders,
            hedging,
            logging,
            clock,
            cash: initial_cash,
            pending: Seq::empty(),
            canceled: Seq::empty(),
            trades: Seq::empty(),
            positions: Map::empty(),
            previous: None,
        }
    }

    /// The settings are those that a broker may be opened with: cash at the
    /// start is not negative, the commission rate is within 10% either way,
    /// and the margin is a fraction between nothing and the whole.
    pub open spec fn valid_settings(self) -> bool {
        &&& 0 <= self.initial_cash
        &&& -MAX_COMMISSION <= self.commission <= MAX_COMMISSION
        &&& 0 <= self.margin <= RATE_SCALE
    }

    /// The state is one that a broker can be in: its settings are valid, no
    /// id is pending twice, and every entry of the ledger is a position: it
    /// does not count as flat, and no less was entered than is held.
    pub open spec fn valid(self) -> bool {
        &&& self.valid_settings()
        &&& book_unique(self.pending)
        &&& ledger_open(self.positions)
    }

    /// The two states are of one account at one moment: they agree on
    /// everything but the pending orders and the record of cancellations.
    pub open spec fn same_account(self, other: BrokerModel) -> bool {
        &&& self.name == other.name
        &&& self.initial_cash == other.initial_cash
        &&& self.commission == other.commission
        &&& self.margin == other.margin
        &&& self.exclusive_orders == other.exclusive_orders
        &&& self.hedging == other.hedging
        &&& self.logging == other.logging
        &&& self.clock == other.clock
        &&& self.cash == other.cash
        &&& self.trades == other.trades
        &&& self.positions == other.positions
        &&& self.previous == other.previous
    }

    /// The close of the previous tick.
    pub open spec fn previous_close(self) -> Option<i64> {
        match self.previous {
            Some(before) => Some(before.close),
            None => None,
        }
    }

    /// Whether the clock stands at the first tick of a session: no tick came
    /// before, or the previous tick is more than eight hours back.
    pub open spec fn new_session(self) -> bool {
        is_new_session(
            match self.previous {
                Some(before) => Some(before.datetime),
                None => None,
            },
            self.clock,
        )
    }

    /// The state after the order is submitted under the id. It replaces the
    /// order pending under that id, if there is one; nothing else changes.
    pub open spec fn submit(self, id: OrderId, order: OrderModel) -> BrokerModel {
        BrokerModel { pending: book_submit(self.pending, id, order), ..self }
    }

    /// The state after the pending order of that id is taken out of the book
    /// and recorded as cancelled, before its `on_cancel` actions run.
    pub open spec fn withdraw(self, id: OrderId) -> BrokerModel {
        BrokerModel {
            pending: book_remove(self.pending, id),
            canceled: self.canceled.push(book_get(self.pending, id).canceled(id)),
            ..self
        }
    }

    /// Runs the actions in sequence, up to the first that fails.
    ///
    /// * `Submit` submits its order.
    /// * `Cancel` withdraws the pending order of its id and runs that order's
    ///   `on_cancel` actions before the actions that are left; it fails with
    ///   `OrderIdNotFound`, and changes nothing, where no order is pending
    ///   under the id.
    /// * `Fail` fails with its error.
    pub open spec fn run(self, agenda: Seq<ActionModel>) -> Outcome
        decreases book_weight(self.pending) + actions_weight(agenda),
    {
        if agenda.len() == 0 {
            (self, Ok(()))
        } else {
            let rest = agenda.drop_first();
            match agenda[0] {
                ActionModel::Submit(id, order) => {
                    proof {
                        lemma_book_weight_submit(self.pending, id, order);
                    }
                    self.submit(id, order).run(rest)
                },
                ActionModel::Cancel(id) => {
                    if book_has(self.pending, id) {
                        proof {
                            lemma_book_weight_withdraw(self.pending, id);
                            lemma_actions_weight_concat(book_get(self.pending, id).on_cancel, rest);
                        }
                        self.withdraw(id).run(book_get(self.pending, id).on_cancel + rest)
                    } else {
                        (self, Err(BrokerError::OrderIdNotFound))
                    }
                },
                ActionModel::Fail(error) => (self, Err(error)),
            }
        }
    }

    /// Cancels the pending order of that id: withdraws it and runs its
    /// `on_cancel` actions. Fails with `OrderIdNotFound`, and changes
    /// nothing, where no order is pending under the id.
    pub open spec fn cancel(self, id: OrderId) -> Outcome {
        self.run(seq![ActionModel::Cancel(id)])
    }

    /// Cash after the order is filled at the price: less by quantity times
    /// price for a buy, more by as much for a sell.
    pub open spec fn cash_after(self, order: OrderModel, price: int) -> int {
        self.cash - signed_quantity(order.side, order.quantity) * price
    }

    /// The fill leaves cash and the position within the range of the integers
    /// that hold them.
    pub open spec fn fill_fits(self, order: OrderModel, price: int) -> bool {
        &&& fill_in_range(self.positions, order.symbol, order.side, order.quantity, price)
        &&& i128::MIN <= self.cash_after(order, price) <= i128::MAX
    }

    /// The state after the order is filled at the price, before its
    /// `on_execute` actions run: cash and the position in the symbol are
    /// changed, and the fill is recorded.
    pub open spec fn fill(self, id: OrderId, order: OrderModel, price: int) -> BrokerModel {
        BrokerModel {
            cash: self.cash_after(order, price),
            positions: ledger_fill(self.positions, order.symbol, order.side, order.quantity, price),
            trades: self.trades.push(
                TradeModel {
                    order_id: id,
                    symbol: order.symbol,
                    side: order.side,
                    quantity: order.quantity,
                    price,
                    commission: 0,
                    datetime: self.clock,
                },
            ),
            ..self
        }
    }

    /// Executes an order that has left the book: books the fill, then runs
    /// the order's `on_execute` actions. A fill that does not fit fails with
    /// `AmountOutOfRange` and changes nothing.
    pub open spec fn execute(self, id: OrderId, order: OrderModel, price: int) -> Outcome {
        if self.fill_fits(order, price) {
            self.fill(id, order, price).run(order.on_execute)
        } else {
            (self, Err(BrokerError::AmountOutOfRange))
        }
    }

    /// Evaluates the order pending under the id against the tick. Where none
    /// is pending, nothing happens. Otherwise the order stays, is converted
    /// where it stands and dated at the clock, or leaves the book and is
    /// executed, as the matching rules decide. An order whose fill does not
    /// fit stays pending, and the evaluation fails.
    pub open spec fn visit(self, id: OrderId, tick: Ticker) -> Outcome {
        if !book_has(self.pending, id) {
            (self, Ok(()))
        } else {
            let order = book_get(self.pending, id);
            match decide(
                order.order_type,
                order.side,
                tick.close,
                self.previous_close(),
                self.new_session(),
            ) {
                Decision::Keep => (self, Ok(())),
                Decision::Convert(order_type) => (
                    self.submit(id, OrderModel { order_type, datetime: self.clock, ..order }),
                    Ok(()),
                ),
                Decision::Fill(price) => if self.fill_fits(order, price as int) {
                    (BrokerModel { pending: book_remove(self.pending, id), ..self }).execute(
                        id,
                        order,
                        price as int,
                    )
                } else {
                    (self, Err(BrokerError::AmountOutOfRange))
                },
            }
        }
    }

    /// Evaluates the orders pending under the ids, one id after the other,
    /// up to the first failure.
    pub open spec fn process(self, ids: Seq<OrderId>, tick: Ticker) -> Outcome
        decreases ids.len(),
    {
        if ids.len() == 0 {
            (self, Ok(()))
        } else {
            let (visited, result) = self.visit(ids[0], tick);
            if result is Ok {
                visited.process(ids.drop_first(), tick)
            } else {
                (visited, result)
            }
        }
    }

    /// One step of the simulation. The clock moves to the tick's time; each
    /// id that is pending at that moment is evaluated once, in book order;
    /// then the tick becomes the previous tick. A failure ends the step at
    /// once and leaves the previous tick as it was.
    pub open spec fn next(self, tick: Ticker) -> Outcome {
        let (processed, result) = (BrokerModel { clock: tick.datetime, ..self }).process(
            book_ids(self.pending),
            tick,
        );
        if result is Ok {
            (BrokerModel { previous: Some(tick), ..processed }, result)
        } else {
            (processed, result)
        }
    }

    /// The broker's part of a backtest over a feed: one step for each tick,
    /// up to the first failure.
    pub open spec fn replay(self, ticks: Seq<Ticker>) -> Outcome
        decreases ticks.len(),
    {
        if ticks.len() == 0 {
            (self, Ok(()))
        } else {
            let (stepped, result) = self.next(ticks[0]);
            if result is Ok {
                stepped.replay(ticks.drop_first())
            } else {
                (stepped, result)
            }
        }
    }
}

} // verus!
