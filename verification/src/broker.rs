//! The broker: it owns the cash, the pending orders and the positions, and
//! takes the simulation one tick further at a time.
use crate::book::{book_get, book_has, book_ids, book_unique, OrderBook};
use crate::clock::{new_session, utc_now};
use crate::ledger::{fill_value, ledger_of, ledger_open, one_per_symbol, Ledger};
use crate::matching::{evaluate, Decision};
use crate::model::{
    actions_weight, book_weight, lemma_actions_weight_concat, lemma_book_weight_submit,
    lemma_book_weight_withdraw, BrokerModel, MAX_COMMISSION,
};
use crate::types::{
    actions_model, lemma_actions_model, ActionModel, BrokerError, CanceledOrder, ContingentAction,
    Order, OrderId, Position, Ticker, Timestamp, Trade, RATE_SCALE,
};
use vstd::prelude::*;

verus! {

/// Why a broker cannot be opened.
#[derive(Debug, Clone, Copy, PartialEq, Eq, Structural)]
pub enum ConfigError {
    /// The cash to start with is negative.
    NegativeInitialCash,
    /// The commission rate is beyond 10% either way.
    CommissionOutOfRange,
    /// The margin is not a fraction between nothing and the whole.
    MarginOutOfRange,
}

/// What is wrong with the settings, if anything: the first of negative cash,
/// a commission out of range, a margin out of range.
pub open spec fn settings_error(initial_cash: int, commission: int, margin: int) -> Option<
    ConfigError,
> {
    if initial_cash < 0 {
        Some(ConfigError::NegativeInitialCash)
    } else if commission > MAX_COMMISSION || commission < -MAX_COMMISSION {
        Some(ConfigError::CommissionOutOfRange)
    } else if margin < 0 || margin > RATE_SCALE {
        Some(ConfigError::MarginOutOfRange)
    } else {
        None
    }
}

/// The leverage that a margin fraction allows, both in rate units: the whole
/// divided by the fraction, rounded down. A margin of nothing sets no bound.
pub open spec fn leverage_of(margin: int) -> Option<i64> {
    if margin > 0 {
        Some(((RATE_SCALE * RATE_SCALE) / margin) as i64)
    } else {
        None
    }
}

/// The broker keeps the books of one simulated account: the orders that are
/// pending, the cash, the positions, and a record of every fill and every
/// cancellation.
#[derive(Debug)]
pub struct Broker {
    name: String,
    initial_cash: i128,
    commission: i64,
    margin: i64,
    exclusive_orders: bool,
    hedging: bool,
    logging: bool,
    datetime: Timestamp,
    active_orders: OrderBook,
    canceled_orders: Vec<CanceledOrder>,
    trades: Vec<Trade>,
    current_cash: i128,
    positions: Ledger,
    previous_ticker: Option<Ticker>,
}

impl View for Broker {
    type V = BrokerModel;

    closed spec fn view(&self) -> BrokerModel {
        BrokerModel {
            name: self.name@,
            initial_cash: self.initial_cash as int,
            commission: self.commission as int,
            margin: self.margin as int,
            exclusive_orders: self.exclusive_orders,
            hedging: self.hedging,
            logging: self.logging,
            clock: self.datetime,
            cash: self.current_cash as int,
            pending: self.active_orders@,
            canceled: self.canceled_orders@.map_values(|c: CanceledOrder| c@),
            trades: self.trades@.map_values(|t: Trade| t@),
            positions: self.positions@,
            previous: self.previous_ticker,
        }
    }
}

/// A copy of the fills, record by record.
fn clone_trades(trades: &Vec<Trade>) -> (copy: Vec<Trade>)
    ensures
        copy@.map_values(|t: Trade| t@) == trades@.map_values(|t: Trade| t@),
{
    let mut copy: Vec<Trade> = Vec::new();
    let mut i: usize = 0;
    while i < trades.len()
        invariant
            i <= trades.len(),
            copy.len() == i,
            forall|j: int| 0 <= j < i ==> (#[trigger] copy[j])@ == trades[j]@,
        decreases trades.len() - i,
    {
        copy.push(
            Trade {
                order_id: trades[i].order_id,
                symbol: trades[i].symbol.clone(),
                side: trades[i].side,
                quantity: trades[i].quantity,
                price: trades[i].price,
                commission: trades[i].commission,
                datetime: trades[i].datetime,
            },
        );
        i += 1;
    }
    assert(copy@.map_values(|t: Trade| t@) =~= trades@.map_values(|t: Trade| t@));
    copy
}

/// A copy of the cancellations, record by record.
fn clone_canceled(canceled: &Vec<CanceledOrder>) -> (copy: Vec<CanceledOrder>)
    ensures
        copy@.map_values(|c: CanceledOrder| c@) == canceled@.map_values(|c: CanceledOrder| c@),
{
    let mut copy: Vec<CanceledOrder> = Vec::new();
    let mut i: usize = 0;
    while i < canceled.len()
        invariant
            i <= canceled.len(),
            copy.len() == i,
            forall|j: int| 0 <= j < i ==> (#[trigger] copy[j])@ == canceled[j]@,
        decreases canceled.len() - i,
    {
        copy.push(
            CanceledOrder {
                order_id: canceled[i].order_id,
                symbol: canceled[i].symbol.clone(),
                quantity: canceled[i].quantity,
                side: canceled[i].side,
                order_type: canceled[i].order_type,
                datetime: canceled[i].datetime,
                execution: canceled[i].execution,
            },
        );
        i += 1;
    }
    assert(copy@.map_values(|c: CanceledOrder| c@) =~= canceled@.map_values(
        |c: CanceledOrder| c@,
    ));
    copy
}

impl Clone for Broker {
    /// A broker in the same state.
    fn clone(&self) -> (copy: Broker)
        ensures
            copy@ == self@,
    {
        Broker {
            name: self.name.clone(),
            initial_cash: self.initial_cash,
            commission: self.commission,
            margin: self.margin,
            exclusive_orders: self.exclusive_orders,
            hedging: self.hedging,
            logging: self.logging,
            datetime: self.datetime,
            active_orders: self.active_orders.clone(),
            canceled_orders: clone_canceled(&self.canceled_orders),
            trades: clone_trades(&self.trades),
            current_cash: self.current_cash,
            positions: self.positions.clone(),
            previous_ticker: self.previous_ticker,
        }
    }
}

impl Broker {
    /// Opens a broker at the current time.
    ///
    /// - `name` identifies the broker among others.
    /// - `initial_cash` is the cash to start with, in cash units; not
    ///   negative.
    /// - `commission` is the commission rate, in rate units; within 10%
    ///   either way.
    /// - `margin` is the margin fraction, in rate units; between nothing and
    ///   the whole.
    ///
    /// Settings outside these ranges are refused.
    ///
    /// The time is read from the system clock, which has to stand at or
    /// after the beginning of 1970 for the reading to succeed;
    /// [`Broker::with_clock`] opens a broker without reading it.
    pub fn new(
        name: &str,
        initial_cash: i128,
        commission: i64,
        margin: i64,
        exclusive_orders: bool,
        hedging: bool,
        logging: bool,
    ) -> (res: Result<Broker, ConfigError>)
        ensures
            match settings_error(initial_cash as int, commission as int, margin as int) {
                Some(error) => res matches Err(e) && e == error,
                None => res matches Ok(broker) && broker@ == BrokerModel::opening(
                    name@,
                    initial_cash as int,
                    commission as int,
                    margin as int,
                    exclusive_orders,
                    hedging,
                    logging,
                    broker@.clock,
                ) && broker@.valid_settings(),
            },
    {
        let now = utc_now();
        Broker::with_clock(
            name,
            initial_cash,
            commission,
            margin,
            exclusive_orders,
            hedging,
            logging,
            now,
        )
    }

    /// Opens a broker whose clock stands at `now`. The settings are those of
    /// [`Broker::new`].
    pub fn with_clock(
        name: &str,
        initial_cash: i128,
        commission: i64,
        margin: i64,
        exclusive_orders: bool,
        hedging: bool,
        logging: bool,
        now: Timestamp,
    ) -> (res: Result<Broker, ConfigError>)
        ensures
            match settings_error(initial_cash as int, commission as int, margin as int) {
                Some(error) => res matches Err(e) && e == error,
                None => res matches Ok(broker) && broker@ == BrokerModel::opening(
                    name@,
                    initial_cash as int,
                    commission as int,
                    margin as int,
                    exclusive_orders,
                    hedging,
                    logging,
                    now,
                ) && broker@.valid_settings(),
            },
    {
        if initial_cash < 0 {
            return Err(ConfigError::NegativeInitialCash);
        }
        if commission > MAX_COMMISSION || commission < -MAX_COMMISSION {
            return Err(ConfigError::CommissionOutOfRange);
        }
        if margin < 0 || margin > RATE_SCALE {
            return Err(ConfigError::MarginOutOfRange);
        }
        let broker = Broker {
            name: name.to_owned(),
            initial_cash,
            commission,
            margin,
            exclusive_orders,
            hedging,
            logging,
            datetime: now,
            active_orders: OrderBook::new(),
            canceled_orders: Vec::new(),
            trades: Vec::new(),
            current_cash: initial_cash,
            positions: Ledger::new(),
            previous_ticker: None,
        };
        assert(broker@.canceled =~= Seq::empty());
        assert(broker@.trades =~= Seq::empty());
        Ok(broker)
    }

    /// Takes the simulation one tick further: sets the clock to the tick's
    /// time, evaluates every order that is pending, and remembers the tick
    /// as the previous one. Ends at the first failure.
    pub fn next(&mut self, ticker: &Ticker) -> (res: Result<(), BrokerError>)
        ensures
            (final(self)@, res) == old(self)@.next(*ticker),
    {
        self.datetime = ticker.datetime;
        let ghost started = self@;
        assert(started == (BrokerModel { clock: ticker.datetime, ..old(self)@ }));
        let processed = self.process_active_orders(ticker);
        proof {
            let outcome = started.process(book_ids(old(self)@.pending), *ticker);
            assert(outcome.0 == self@ && outcome.1 == processed);
        }
        if processed.is_ok() {
            let ghost after = self@;
            self.previous_ticker = Some(*ticker);
            assert(self@ == (BrokerModel { previous: Some(*ticker), ..after }));
        }
        processed
    }

    /// Submits the order under the id. It replaces the order pending under
    /// that id, if there is one.
    pub fn submit_order(&mut self, id: OrderId, order: Order) -> (res: Result<(), BrokerError>)
        ensures
            res is Ok,
            final(self)@ == old(self)@.submit(id, order@),
    {
        self.active_orders.insert(id, order);
        Ok(())
    }

    /// Cancels the order pending under the id: takes it out of the book,
    /// records it as cancelled and runs its `on_cancel` actions. Where no
    /// order is pending under the id, fails with `OrderIdNotFound` and
    /// changes nothing.
    pub fn cancel_order(&mut self, id: OrderId) -> (res: Result<(), BrokerError>)
        ensures
            (final(self)@, res) == old(self)@.cancel(id),
            !book_has(old(self)@.pending, id) ==> res == Err::<(), BrokerError>(
                BrokerError::OrderIdNotFound,
            ) && final(self)@ == old(self)@,
    {
        let mut agenda: Vec<ContingentAction> = Vec::new();
        agenda.push(ContingentAction::Cancel(id));
        proof {
            lemma_actions_model(agenda@);
            assert(actions_model(agenda@) =~= seq![ActionModel::Cancel(id)]);
        }
        self.run_actions(agenda)
    }

    /// Runs the actions of an order that was filled or cancelled, in
    /// sequence, up to the first that fails.
    fn run_actions(&mut self, actions: Vec<ContingentAction>) -> (res: Result<(), BrokerError>)
        ensures
            (final(self)@, res) == old(self)@.run(actions_model(actions@)),
    {
        let mut agenda = actions;
        loop
            invariant
                self@.run(actions_model(agenda@)) == old(self)@.run(actions_model(actions@)),
            decreases book_weight(self@.pending) + actions_weight(actions_model(agenda@)),
        {
            let ghost state = self@;
            let ghost ahead = actions_model(agenda@);
            proof {
                lemma_actions_model(agenda@);
            }
            if agenda.len() == 0 {
                return Ok(());
            }
            let action = agenda.remove(0);
            proof {
                lemma_actions_model(agenda@);
                assert(actions_model(agenda@) =~= ahead.drop_first());
                assert(ahead[0] == action@);
            }
            match action {
                ContingentAction::Submit(id, order) => {
                    proof {
                        lemma_book_weight_submit(state.pending, id, order@);
                    }
                    self.active_orders.insert(id, order);
                },
                ContingentAction::Cancel(id) => {
                    match self.active_orders.remove(id) {
                        None => {
                            return Err(BrokerError::OrderIdNotFound);
                        },
                        Some(order) => {
                            let ghost hooks = order@.on_cancel;
                            let Order {
                                symbol,
                                quantity,
                                side,
                                order_type,
                                datetime,
                                execution,
                                on_execute: _,
                                on_cancel,
                            } = order;
                            self.canceled_orders.push(
                                CanceledOrder {
                                    order_id: id,
                                    symbol,
                                    quantity,
                                    side,
                                    order_type,
                                    datetime,
                                    execution,
                                },
                            );
                            let mut resumed = on_cancel;
                            resumed.append(&mut agenda);
                            agenda = resumed;
                            proof {
                                lemma_actions_model(on_cancel@);
                                lemma_actions_model(agenda@);
                                assert(actions_model(agenda@) =~= hooks + ahead.drop_first());
                                lemma_book_weight_withdraw(state.pending, id);
                                lemma_actions_weight_concat(hooks, ahead.drop_first());
                                assert(self@.canceled =~= state.withdraw(id).canceled);
                                assert(self@ == state.withdraw(id));
                            }
                        },
                    }
                },
                ContingentAction::Fail(error) => {
                    return Err(error);
                },
            }
        }
    }

    /// Whether the fill of the order at the price leaves cash and the
    /// position within range.
    fn fits(&self, order: &Order, price: i64) -> (ok: bool)
        ensures
            ok == self@.fill_fits(order@, price as int),
    {
        let value = fill_value(order.side, order.quantity, price);
        self.current_cash.checked_sub(value).is_some() && self.positions.accepts(
            &order.symbol,
            order.side,
            order.quantity,
            price,
        )
    }

    /// Executes an order that has left the book, at the price: changes cash
    /// and the position, records the fill, and runs the order's `on_execute`
    /// actions.
    fn execute_order(&mut self, id: OrderId, order: Order, price: i64) -> (res: Result<
        (),
        BrokerError,
    >)
        requires
            old(self)@.fill_fits(order@, price as int),
        ensures
            (final(self)@, res) == old(self)@.execute(id, order@, price as int),
    {
        let ghost state = self@;
        let Order {
            symbol,
            quantity,
            side,
            order_type: _,
            datetime: _,
            execution: _,
            on_execute,
            on_cancel: _,
        } = order;
        let value = fill_value(side, quantity, price);
        let _ = self.positions.fill(&symbol, side, quantity, price);
        self.current_cash = self.current_cash - value;
        self.trades.push(
            Trade {
                order_id: id,
                symbol,
                side,
                quantity,
                price,
                commission: 0,
                datetime: self.datetime,
            },
        );
        proof {
            assert(self@.trades =~= state.fill(id, order@, price as int).trades);
            assert(self@ == state.fill(id, order@, price as int));
        }
        self.run_actions(on_execute)
    }

    /// Evaluates the order pending under the id against the tick.
    fn visit(&mut self, id: OrderId, ticker: &Ticker) -> (res: Result<(), BrokerError>)
        ensures
            (final(self)@, res) == old(self)@.visit(id, *ticker),
    {
        let first = self.next_date();
        let before = match self.previous_ticker {
            Some(previous) => Some(previous.close),
            None => None,
        };
        let decision = match self.active_orders.get(id) {
            None => {
                return Ok(());
            },
            Some(order) => {
                let decision = evaluate(order.order_type, order.side, ticker.close, before, first);
                match decision {
                    Decision::Fill(price) => {
                        if !self.fits(order, price) {
                            return Err(BrokerError::AmountOutOfRange);
                        }
                    },
                    _ => {},
                }
                decision
            },
        };
        match decision {
            Decision::Keep => Ok(()),
            Decision::Convert(order_type) => {
                self.active_orders.convert(id, order_type, self.datetime);
                Ok(())
            },
            Decision::Fill(price) => {
                match self.active_orders.remove(id) {
                    Some(order) => self.execute_order(id, order, price),
                    None => Ok(()),
                }
            },
        }
    }

    /// Evaluates every order that is pending when the call begins, one id
    /// after the other in book order, up to the first failure.
    fn process_active_orders(&mut self, ticker: &Ticker) -> (res: Result<(), BrokerError>)
        ensures
            (final(self)@, res) == old(self)@.process(book_ids(old(self)@.pending), *ticker),
    {
        let ids = self.active_orders.ids();
        let mut k: usize = 0;
        assert(ids@.subrange(0, ids.len() as int) =~= ids@);
        while k < ids.len()
            invariant
                k <= ids.len(),
                ids@ == book_ids(old(self)@.pending),
                self@.process(ids@.subrange(k as int, ids.len() as int), *ticker) == old(
                    self,
                )@.process(ids@, *ticker),
            decreases ids.len() - k,
        {
            let ghost ahead = ids@.subrange(k as int, ids.len() as int);
            assert(ahead.drop_first() =~= ids@.subrange(k + 1, ids.len() as int));
            assert(ahead.len() > 0 && ahead[0] == ids@[k as int]);
            let ghost state = self@;
            let visited = self.visit(ids[k], ticker);
            proof {
                let outcome = state.visit(ahead[0], *ticker);
                assert(outcome.0 == self@ && outcome.1 == visited);
                assert(state.process(ahead, *ticker) == if visited is Ok {
                    self@.process(ahead.drop_first(), *ticker)
                } else {
                    (self@, visited)
                });
            }
            if visited.is_err() {
                return visited;
            }
            k += 1;
        }
        Ok(())
    }

    /// The simulated time: that of the tick being processed, or of the last
    /// one processed.
    pub fn get_datetime(&self) -> (now: Timestamp)
        ensures
            now == self@.clock,
    {
        self.datetime
    }

    /// Whether the clock stands at the first tick of a session.
    fn next_date(&self) -> (first: bool)
        ensures
            first == self@.new_session(),
    {
        let previous = match self.previous_ticker {
            Some(before) => Some(before.datetime),
            None => None,
        };
        new_session(previous, self.datetime)
    }

    /// Cash in hand, in cash units.
    pub fn get_cash(&self) -> (cash: i128)
        ensures
            cash == self@.cash,
    {
        self.current_cash
    }

    /// The cash that the broker was opened with, in cash units.
    pub fn get_initial_cash(&self) -> (cash: i128)
        ensures
            cash == self@.initial_cash,
    {
        self.initial_cash
    }

    /// The name that the broker was opened under.
    pub fn get_name(&self) -> (name: &String)
        ensures
            name@ == self@.name,
    {
        &self.name
    }

    /// The commission rate, in rate units. The engine charges none; the rate
    /// is kept for the strategies to read.
    pub fn get_commission(&self) -> (commission: i64)
        ensures
            commission == self@.commission,
    {
        self.commission
    }

    /// The margin fraction, in rate units.
    pub fn get_margin(&self) -> (margin: i64)
        ensures
            margin == self@.margin,
    {
        self.margin
    }

    /// The leverage, in rate units: the whole divided by the margin
    /// fraction, rounded down. There is none at a margin of nothing.
    pub fn get_leverage(&self) -> (leverage: Option<i64>)
        ensures
            leverage == leverage_of(self@.margin),
    {
        if self.margin > 0 {
            Some((RATE_SCALE * RATE_SCALE) / self.margin)
        } else {
            None
        }
    }

    /// Whether each new order is to close the position before it.
    pub fn is_exclusive_orders(&self) -> (exclusive_orders: bool)
        ensures
            exclusive_orders == self@.exclusive_orders,
    {
        self.exclusive_orders
    }

    /// Whether positions in both directions may be held at once.
    pub fn is_hedging(&self) -> (hedging: bool)
        ensures
            hedging == self@.hedging,
    {
        self.hedging
    }

    /// Whether the broker's activity is to be logged.
    pub fn is_logging(&self) -> (logging: bool)
        ensures
            logging == self@.logging,
    {
        self.logging
    }

    /// The tick that was processed last.
    pub fn get_previous_ticker(&self) -> (previous: Option<Ticker>)
        ensures
            previous == self@.previous,
    {
        self.previous_ticker
    }

    /// The position held in the symbol.
    pub fn get_position(&self, symbol: &String) -> (found: Option<Position>)
        ensures
            found is Some == self@.positions.contains_key(symbol@),
            found matches Some(position) ==> position@ == self@.positions[symbol@]
                && position.symbol@ == symbol@,
            ledger_open(self@.positions),
    {
        self.positions.get(symbol)
    }

    /// All the positions held, one for each symbol.
    pub fn get_positions(&self) -> (held: Vec<Position>)
        ensures
            held@.len() == self@.positions.dom().len(),
            one_per_symbol(held@),
            ledger_of(held@) == self@.positions,
            forall|i: int|
                0 <= i < held@.len() ==> self@.positions.contains_key(
                    (#[trigger] held@[i]).symbol@,
                ) && self@.positions[held@[i].symbol@] == held@[i]@,
    {
        self.positions.positions()
    }

    /// The order pending under the id.
    pub fn get_order(&self, id: OrderId) -> (found: Option<&Order>)
        ensures
            found is Some == book_has(self@.pending, id),
            found matches Some(order) ==> order@ == book_get(self@.pending, id),
            book_unique(self@.pending),
    {
        self.active_orders.get(id)
    }

    /// The ids of the pending orders, in book order.
    pub fn pending_ids(&self) -> (ids: Vec<OrderId>)
        ensures
            ids@ == book_ids(self@.pending),
            book_unique(self@.pending),
    {
        self.active_orders.ids()
    }

    /// The fills so far, oldest first.
    pub fn get_trades(&self) -> (trades: &Vec<Trade>)
        ensures
            trades@.map_values(|t: Trade| t@) == self@.trades,
    {
        &self.trades
    }

    /// The cancellations so far, oldest first.
    pub fn get_canceled_orders(&self) -> (canceled: &Vec<CanceledOrder>)
        ensures
            canceled@.map_values(|c: CanceledOrder| c@) == self@.canceled,
    {
        &self.canceled_orders
    }
}

} // verus!
