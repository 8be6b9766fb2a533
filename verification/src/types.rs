//! The values that flow through the engine, and the mathematical model of
//! each.
//!
//! All amounts are integers in fixed-point units, so that every fill is
//! booked exactly:
//!
//! * a price counts [`PRICE_SCALE`] units per unit of currency,
//! * a quantity counts [`QUANTITY_SCALE`] units per share,
//! * cash and cost count [`CASH_SCALE`] units per unit of currency, which is
//!   the unit of a quantity multiplied by a price,
//! * a rate (commission, margin) counts [`RATE_SCALE`] units per whole.
use vstd::prelude::*;

verus! {

/// Identifier of an order, unique among the orders that are pending.
pub type OrderId = usize;

/// Price units in one unit of currency.
pub const PRICE_SCALE: i64 = 1_000_000;

/// Quantity units in one share.
pub const QUANTITY_SCALE: u64 = 1_000_000;

/// Cash units in one unit of currency: the product of the two scales above.
pub const CASH_SCALE: i128 = 1_000_000_000_000;

/// Rate units in the whole (a rate of 100%).
pub const RATE_SCALE: i64 = 1_000_000;

/// A position whose magnitude is at most this many quantity units counts as
/// flat and is closed.
pub const POSITION_EPSILON: i128 = 1;

/// An instant: whole seconds since the Unix epoch, and the nanoseconds past
/// that second.
#[derive(Debug, Clone, Copy, PartialEq, Eq, Structural)]
pub struct Timestamp {
    pub secs: i64,
    pub nanos: u32,
}

impl Timestamp {
    /// The instant as one number: nanoseconds since the Unix epoch.
    pub open spec fn instant(self) -> int {
        self.secs * 1_000_000_000 + self.nanos
    }

    /// The instant that many seconds and nanoseconds after the Unix epoch.
    pub fn new(secs: i64, nanos: u32) -> (t: Timestamp)
        ensures
            t.secs == secs,
            t.nanos == nanos,
    {
        Timestamp { secs, nanos }
    }

    /// The instant that many whole seconds after the Unix epoch.
    pub fn from_secs(secs: i64) -> (t: Timestamp)
        ensures
            t.secs == secs,
            t.nanos == 0,
            t.instant() == secs * 1_000_000_000,
    {
        Timestamp { secs, nanos: 0 }
    }
}

/// One market observation: prices in price units, and when it was made.
#[derive(Debug, Clone, Copy, PartialEq, Eq, Structural)]
pub struct Ticker {
    pub open: i64,
    pub high: i64,
    pub low: i64,
    pub close: i64,
    pub volume: u32,
    pub datetime: Timestamp,
}

impl Ticker {
    /// The tick with those prices, that volume and that time.
    pub fn new(open: i64, high: i64, low: i64, close: i64, volume: u32, datetime: Timestamp) -> (t:
        Ticker)
        ensures
            t == (Ticker { open, high, low, close, volume, datetime }),
    {
        Ticker { open, high, low, close, volume, datetime }
    }
}

/// The direction of an order.
#[derive(Debug, Clone, Copy, PartialEq, Eq, Structural)]
pub enum OrderSide {
    Buy,
    Sell,
}

/// How an order is triggered. Prices are in price units.
#[derive(Debug, Clone, Copy, PartialEq, Eq, Structural)]
pub enum OrderType {
    /// Fills on the first tick that evaluates it.
    Market,
    /// Fills once the close is at the limit or better.
    Limit(i64),
    /// Becomes a market order once the close reaches the stop.
    Stop(i64),
    /// Becomes a limit order at the second price once the close reaches the
    /// first, unless the close is already past the limit.
    StopLimit(i64, i64),
    /// Market on close: fills on the first tick of a session, at the close of
    /// the tick before it.
    MOC,
    /// Market on open: fills on the first tick of a session, at its close.
    MOO,
    /// Limit on close: as `MOC`, if the price is at the limit or better.
    LOC(i64),
    /// Limit on open: as `MOO`, if the price is at the limit or better.
    LOO(i64),
}

/// How long an order stays in force.
#[derive(Debug, Clone, Copy, PartialEq, Eq, Structural)]
pub enum OrderExecutionStrategy {
    /// Good till cancelled.
    GTC,
    /// Good till date.
    GTD,
    /// Good for the day.
    GFD,
    /// Fill or kill.
    FOK,
    /// Immediate or cancel.
    IOC,
}

/// What can go wrong inside the broker.
#[derive(Debug, Clone, Copy, PartialEq, Eq, Structural)]
pub enum BrokerError {
    InsufficientFundsForPurchase,
    OutOfMoneyError,
    InsufficientMargin,
    /// No pending order has the id that was to be cancelled.
    OrderIdNotFound,
    /// A fill would take cash, a position or its cost out of the range of the
    /// integers that hold them.
    AmountOutOfRange,
}

/// Something the broker does on behalf of an order when that order is filled
/// or cancelled. The actions of an order run in sequence, inside the call
/// that filled or cancelled it; the first failure ends that call.
#[derive(Debug, PartialEq, Eq)]
pub enum ContingentAction {
    /// Submit the order under the id, replacing the pending order of that id.
    Submit(OrderId, Order),
    /// Cancel the pending order of that id, which runs its own `on_cancel`.
    Cancel(OrderId),
    /// Fail with the error.
    Fail(BrokerError),
}

/// An instruction to trade, pending at the broker until it is filled or
/// cancelled.
#[derive(Debug, PartialEq, Eq)]
pub struct Order {
    pub symbol: String,
    /// Magnitude in quantity units; `side` gives the direction.
    pub quantity: u64,
    pub side: OrderSide,
    pub order_type: OrderType,
    /// When the order was submitted.
    pub datetime: Timestamp,
    pub execution: OrderExecutionStrategy,
    /// Run once, when the order has been filled.
    pub on_execute: Vec<ContingentAction>,
    /// Run once, when the order has been cancelled.
    pub on_cancel: Vec<ContingentAction>,
}

/// The net holding in one symbol.
#[derive(Debug, Clone, PartialEq, Eq)]
pub struct Position {
    pub symbol: String,
    /// Signed, in quantity units: positive when long, negative when short.
    pub amount: i128,
    /// The quantity that entered the position, in quantity units: the sum
    /// over the fills on the position's side since it was opened. A fill
    /// against the position takes from the amount and leaves this as it is.
    pub entered: i128,
    /// What that quantity was entered for, in cash units: the sum of
    /// quantity times price over the same fills.
    pub cost: i128,
}

/// The record of one fill.
#[derive(Debug, Clone, PartialEq, Eq)]
pub struct Trade {
    pub order_id: OrderId,
    pub symbol: String,
    pub side: OrderSide,
    pub quantity: u64,
    pub price: i64,
    /// Commission charged on the fill, in cash units. The engine charges none.
    pub commission: i128,
    pub datetime: Timestamp,
}

/// The record of one cancellation: the order as it was pending, without its
/// actions.
#[derive(Debug, Clone, PartialEq, Eq)]
pub struct CanceledOrder {
    pub order_id: OrderId,
    pub symbol: String,
    pub quantity: u64,
    pub side: OrderSide,
    pub order_type: OrderType,
    pub datetime: Timestamp,
    pub execution: OrderExecutionStrategy,
}

/// Model of an [`Order`].
pub struct OrderModel {
    pub symbol: Seq<char>,
    pub quantity: nat,
    pub side: OrderSide,
    pub order_type: OrderType,
    pub datetime: Timestamp,
    pub execution: OrderExecutionStrategy,
    pub on_execute: Seq<ActionModel>,
    pub on_cancel: Seq<ActionModel>,
}

/// Model of a [`ContingentAction`].
pub enum ActionModel {
    Submit(OrderId, OrderModel),
    Cancel(OrderId),
    Fail(BrokerError),
}

/// Model of a [`Position`], without the symbol that it is filed under.
pub struct PositionModel {
    pub amount: int,
    pub entered: int,
    pub cost: int,
}

/// Model of a [`Trade`].
pub struct TradeModel {
    pub order_id: OrderId,
    pub symbol: Seq<char>,
    pub side: OrderSide,
    pub quantity: nat,
    pub price: int,
    pub commission: int,
    pub datetime: Timestamp,
}

/// Model of a [`CanceledOrder`].
pub struct CanceledModel {
    pub order_id: OrderId,
    pub symbol: Seq<char>,
    pub quantity: nat,
    pub side: OrderSide,
    pub order_type: OrderType,
    pub datetime: Timestamp,
    pub execution: OrderExecutionStrategy,
}

/// The models of a sequence of actions, in order.
pub open spec fn actions_model(actions: Seq<ContingentAction>) -> Seq<ActionModel>
    decreases actions, 0nat,
{
    if actions.len() == 0 {
        Seq::empty()
    } else {
        actions_model(actions.drop_last()).push(actions.last().model())
    }
}

impl ContingentAction {
    /// What the action stands for.
    pub open spec fn model(self) -> ActionModel
        decreases self, 1nat,
    {
        match self {
            ContingentAction::Submit(id, order) => ActionModel::Submit(id, order.model()),
            ContingentAction::Cancel(id) => ActionModel::Cancel(id),
            ContingentAction::Fail(e) => ActionModel::Fail(e),
        }
    }
}

impl View for ContingentAction {
    type V = ActionModel;

    open spec fn view(&self) -> ActionModel {
        self.model()
    }
}

impl Order {
    /// What the order stands for.
    pub open spec fn model(self) -> OrderModel
        decreases self, 1nat,
    {
        OrderModel {
            symbol: self.symbol@,
            quantity: self.quantity as nat,
            side: self.side,
            order_type: self.order_type,
            datetime: self.datetime,
            execution: self.execution,
            on_execute: actions_model(self.on_execute@),
            on_cancel: actions_model(self.on_cancel@),
        }
    }

    /// A good-till-cancelled order without actions, dated at the epoch.
    pub fn new(symbol: String, quantity: u64, side: OrderSide, order_type: OrderType) -> (order:
        Order)
        ensures
            order@ == (OrderModel {
                symbol: symbol@,
                quantity: quantity as nat,
                side,
                order_type,
                datetime: Timestamp { secs: 0, nanos: 0 },
                execution: OrderExecutionStrategy::GTC,
                on_execute: Seq::empty(),
                on_cancel: Seq::empty(),
            }),
    {
        Order {
            symbol,
            quantity,
            side,
            order_type,
            datetime: Timestamp { secs: 0, nanos: 0 },
            execution: OrderExecutionStrategy::GTC,
            on_execute: Vec::new(),
            on_cancel: Vec::new(),
        }
    }
}

impl View for Order {
    type V = OrderModel;

    open spec fn view(&self) -> OrderModel {
        self.model()
    }
}

impl View for Position {
    type V = PositionModel;

    open spec fn view(&self) -> PositionModel {
        PositionModel {
            amount: self.amount as int,
            entered: self.entered as int,
            cost: self.cost as int,
        }
    }
}

impl View for Trade {
    type V = TradeModel;

    open spec fn view(&self) -> TradeModel {
        TradeModel {
            order_id: self.order_id,
            symbol: self.symbol@,
            side: self.side,
            quantity: self.quantity as nat,
            price: self.price as int,
            commission: self.commission as int,
            datetime: self.datetime,
        }
    }
}

impl View for CanceledOrder {
    type V = CanceledModel;

    open spec fn view(&self) -> CanceledModel {
        CanceledModel {
            order_id: self.order_id,
            symbol: self.symbol@,
            quantity: self.quantity as nat,
            side: self.side,
            order_type: self.order_type,
            datetime: self.datetime,
            execution: self.execution,
        }
    }
}

impl OrderModel {
    /// The record that is kept of the order when it is cancelled under `id`.
    pub open spec fn canceled(self, id: OrderId) -> CanceledModel {
        CanceledModel {
            order_id: id,
            symbol: self.symbol,
            quantity: self.quantity,
            side: self.side,
            order_type: self.order_type,
            datetime: self.datetime,
            execution: self.execution,
        }
    }
}

/// A copy of the actions, with the same models in the same order.
fn clone_actions(actions: &Vec<ContingentAction>) -> (copy: Vec<ContingentAction>)
    ensures
        actions_model(copy@) == actions_model(actions@),
    decreases actions, 0nat,
{
    let mut copy: Vec<ContingentAction> = Vec::new();
    let mut i: usize = 0;
    while i < actions.len()
        invariant
            i <= actions.len(),
            copy.len() == i,
            forall|j: int| 0 <= j < i ==> #[trigger] copy[j]@ == actions[j]@,
        decreases actions.len() - i,
    {
        copy.push(actions[i].clone());
        i += 1;
    }
    proof {
        lemma_actions_model(copy@);
        lemma_actions_model(actions@);
        assert(actions_model(copy@) =~= actions_model(actions@));
    }
    copy
}

impl Clone for ContingentAction {
    fn clone(&self) -> (copy: Self)
        ensures
            copy@ == self@,
        decreases self, 1nat,
    {
        match self {
            ContingentAction::Submit(id, order) => ContingentAction::Submit(*id, order.clone()),
            ContingentAction::Cancel(id) => ContingentAction::Cancel(*id),
            ContingentAction::Fail(e) => ContingentAction::Fail(*e),
        }
    }
}

impl Clone for Order {
    fn clone(&self) -> (copy: Self)
        ensures
            copy@ == self@,
        decreases self, 1nat,
    {
        Order {
            symbol: self.symbol.clone(),
            quantity: self.quantity,
            side: self.side,
            order_type: self.order_type,
            datetime: self.datetime,
            execution: self.execution,
            on_execute: clone_actions(&self.on_execute),
            on_cancel: clone_actions(&self.on_cancel),
        }
    }
}

/// Each action's model stands at the action's own index.
pub proof fn lemma_actions_model(actions: Seq<ContingentAction>)
    ensures
        actions_model(actions).len() == actions.len(),
        forall|i: int| 0 <= i < actions.len() ==> #[trigger] actions_model(actions)[i] == actions[i]@,
    decreases actions.len(),
{
    if actions.len() > 0 {
        lemma_actions_model(actions.drop_last());
    }
}

} // verus!
