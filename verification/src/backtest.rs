//! The backtest: one strategy trading through one broker over one feed.
use crate::broker::Broker;
use crate::clock::{stopwatch_read, stopwatch_start};
use crate::model::BrokerModel;
use crate::strategy::{Strategy, StrategyError};
use crate::timeseries::TimeSeries;
use crate::types::{BrokerError, Ticker};
use vstd::prelude::*;

verus! {

/// Why a backtest stopped before the end of its feed.
#[derive(Debug, Clone, Copy, PartialEq, Eq, Structural)]
pub enum BacktestError {
    /// An item of the feed could not be read as a tick.
    TickerParseError,
    /// The broker failed while it processed a tick.
    BrokerError(BrokerError),
    /// The strategy failed.
    StrategyError(StrategyError),
}

impl From<StrategyError> for BacktestError {
    fn from(err: StrategyError) -> (error: BacktestError)
        ensures
            error == BacktestError::StrategyError(err),
    {
        BacktestError::StrategyError(err)
    }
}

impl vstd::std_specs::convert::FromSpecImpl<StrategyError> for BacktestError {
    open spec fn obeys_from_spec() -> bool {
        true
    }

    open spec fn from_spec(err: StrategyError) -> BacktestError {
        BacktestError::StrategyError(err)
    }
}

impl From<BrokerError> for BacktestError {
    fn from(err: BrokerError) -> (error: BacktestError)
        ensures
            error == BacktestError::BrokerError(err),
    {
        BacktestError::BrokerError(err)
    }
}

impl vstd::std_specs::convert::FromSpecImpl<BrokerError> for BacktestError {
    open spec fn obeys_from_spec() -> bool {
        true
    }

    open spec fn from_spec(err: BrokerError) -> BacktestError {
        BacktestError::BrokerError(err)
    }
}

/// What a backtest makes of how the strategy's turn ended.
pub open spec fn turn_result(outcome: Result<(), StrategyError>) -> Result<(), BacktestError> {
    match outcome {
        Ok(_) => Ok(()),
        Err(error) => Err(BacktestError::StrategyError(error)),
    }
}

/// What a backtest makes of how the strategy's turn ended: a failure of the
/// strategy is a failure of the backtest.
pub fn outcome_of_turn(outcome: Result<(), StrategyError>) -> (res: Result<(), BacktestError>)
    ensures
        res == turn_result(outcome),
{
    match outcome {
        Ok(()) => Ok(()),
        Err(error) => Err(BacktestError::StrategyError(error)),
    }
}

/// What one item of the feed may make of a backtest. An item that is no tick
/// changes nothing and fails with `TickerParseError`. A tick goes to the
/// broker first; if the broker fails, the strategy does not see the tick.
/// Then the strategy has its turn, with the broker as the step left it.
pub open spec fn stepped<S: Strategy>(
    before: S,
    broker: BrokerModel,
    item: Option<Ticker>,
    after: S,
    traded: BrokerModel,
    res: Result<(), BacktestError>,
) -> bool {
    match item {
        None => after == before && traded == broker && res == Err::<(), BacktestError>(
            BacktestError::TickerParseError,
        ),
        Some(tick) => match broker.next(tick).1 {
            Err(error) => after == before && traded == broker.next(tick).0 && res == Err::<
                (),
                BacktestError,
            >(BacktestError::BrokerError(error)),
            Ok(_) => exists|outcome: Result<(), StrategyError>|
                S::ticked(before, tick, broker.next(tick).0, after, traded, outcome) && res
                    == #[trigger] turn_result(outcome),
        },
    }
}

/// What the items of a feed may make of a backtest when every step goes
/// well: the states that they may lead to from the states at the start.
pub open spec fn fed<S: Strategy>(
    start: S,
    opened: BrokerModel,
    feed: Seq<Option<Ticker>>,
    end: S,
    closed: BrokerModel,
) -> bool
    decreases feed.len(),
{
    if feed.len() == 0 {
        end == start && closed == opened
    } else {
        exists|middle: S, traded: BrokerModel|
            fed(start, opened, feed.drop_last(), middle, traded) && #[trigger] stepped(
                middle,
                traded,
                feed.last(),
                end,
                closed,
                Ok(()),
            )
    }
}

/// The preparation of the strategy may go well and lead to those states.
pub open spec fn ready_for<S: Strategy>(
    start: S,
    broker: BrokerModel,
    ready: S,
    opened: BrokerModel,
) -> bool {
    exists|outcome: Result<(), StrategyError>|
        outcome is Ok && #[trigger] S::prepared(start, broker, ready, opened, outcome)
}

/// A backtest may fail with the error and be left in those states: in the
/// preparation of the strategy, or at an item of the feed that the items
/// before it lead to without failure.
pub open spec fn fails<S: Strategy>(
    start: S,
    broker: BrokerModel,
    feed: Seq<Option<Ticker>>,
    error: BacktestError,
    end: S,
    closed: BrokerModel,
) -> bool {
    ||| exists|outcome: Result<(), StrategyError>|
        #[trigger] S::prepared(start, broker, end, closed, outcome) && turn_result(outcome)
            == Err::<(), BacktestError>(error)
    ||| exists|ready: S, opened: BrokerModel, i: int, middle: S, traded: BrokerModel|
        {
            &&& ready_for(start, broker, ready, opened)
            &&& 0 <= i < feed.len()
            &&& #[trigger] fed(ready, opened, feed.subrange(0, i), middle, traded)
            &&& #[trigger] stepped(middle, traded, feed[i], end, closed, Err(error))
        }
}

/// A backtest may end well in those states: the strategy prepares, and the
/// items of the feed lead from there to them.
pub open spec fn completes<S: Strategy>(
    start: S,
    broker: BrokerModel,
    feed: Seq<Option<Ticker>>,
    end: S,
    closed: BrokerModel,
) -> bool {
    exists|ready: S, opened: BrokerModel|
        ready_for(start, broker, ready, opened) && #[trigger] fed(ready, opened, feed, end, closed)
}

/// Model of a backtest.
pub struct BacktestModel<S> {
    /// The path of the feed.
    pub feed: Seq<char>,
    pub broker: BrokerModel,
    pub strategy: S,
}

/// One strategy, one broker and one feed, ready to run.
#[derive(Debug)]
pub struct Backtest<S: Strategy> {
    feed: TimeSeries,
    broker: Broker,
    strategy: S,
}

impl<S: Strategy> View for Backtest<S> {
    type V = BacktestModel<S>;

    closed spec fn view(&self) -> BacktestModel<S> {
        BacktestModel { feed: self.feed@, broker: self.broker@, strategy: self.strategy }
    }
}

/// What a backtest leaves behind.
#[derive(Debug)]
pub struct BacktestResult<S: Strategy> {
    /// The path of the feed.
    pub feed_path: String,
    /// The broker as the last tick left it.
    pub broker: Broker,
    /// The strategy as the last tick left it.
    pub strategy: S,
    /// How long the run took.
    pub runtime: core::time::Duration,
    /// The cash that the broker was opened with, in cash units.
    pub starting_cash: i128,
    /// The cash in hand at the end, in cash units.
    pub ending_cash: i128,
}

/// What a backtest that failed leaves behind: the failure, and the books as
/// they stood when it came.
#[derive(Debug)]
pub struct BacktestFailure<S: Strategy> {
    pub error: BacktestError,
    pub partial: BacktestResult<S>,
}

impl<S: Strategy> BacktestResult<S> {
    /// The record is of a run of that backtest: it names its feed, and its
    /// figures are those of the brokers at the start and at the end.
    pub open spec fn reports(self, backtest: BacktestModel<S>) -> bool {
        &&& self.feed_path@ == backtest.feed
        &&& self.starting_cash == backtest.broker.initial_cash
        &&& self.ending_cash == self.broker@.cash
    }
}

impl<S: Strategy> Backtest<S> {
    /// The backtest of a strategy, trading through a broker, over a feed.
    pub fn new(feed: TimeSeries, broker: Broker, strategy: S) -> (backtest: Backtest<S>)
        ensures
            backtest@ == (BacktestModel { feed: feed@, broker: broker@, strategy }),
    {
        Backtest { feed, broker, strategy }
    }

    /// The feed that the backtest is to run over.
    pub fn get_feed(&self) -> (feed: &TimeSeries)
        ensures
            feed@ == self@.feed,
    {
        &self.feed
    }

    /// The broker of the backtest.
    pub fn get_broker(&self) -> (broker: &Broker)
        ensures
            broker@ == self@.broker,
    {
        &self.broker
    }

    /// The strategy of the backtest.
    pub fn get_strategy(&self) -> (strategy: &S)
        ensures
            *strategy == self@.strategy,
    {
        &self.strategy
    }

    /// Lets the strategy prepare, before the first tick.
    pub fn prepare(&mut self) -> (res: Result<(), BacktestError>)
        ensures
            final(self)@.feed == old(self)@.feed,
            exists|outcome: Result<(), StrategyError>|
                S::prepared(
                    old(self)@.strategy,
                    old(self)@.broker,
                    final(self)@.strategy,
                    final(self)@.broker,
                    outcome,
                ) && res == #[trigger] turn_result(outcome),
    {
        let outcome = self.strategy.prepare(&mut self.broker);
        outcome_of_turn(outcome)
    }

    /// Takes the backtest one item of the feed further.
    pub fn step(&mut self, item: &Option<Ticker>) -> (res: Result<(), BacktestError>)
        ensures
            final(self)@.feed == old(self)@.feed,
            stepped(
                old(self)@.strategy,
                old(self)@.broker,
                *item,
                final(self)@.strategy,
                final(self)@.broker,
                res,
            ),
    {
        match item {
            None => Err(BacktestError::TickerParseError),
            Some(ticker) => {
                match self.broker.next(ticker) {
                    Err(error) => Err(BacktestError::BrokerError(error)),
                    Ok(()) => {
                        let outcome = self.strategy.on_ticker(ticker, &mut self.broker);
                                        outcome_of_turn(outcome)
                    },
                }
            },
        }
    }

    /// Runs the backtest over the items of its feed, as they were read: lets
    /// the strategy prepare, then takes one step for each item. Stops at the
    /// first failure, and returns it with the books as they stood.
    pub fn run(self, feed: &Vec<Option<Ticker>>) -> (res: Result<
        BacktestResult<S>,
        BacktestFailure<S>,
    >)
        ensures
            match res {
                Ok(result) => {
                    &&& completes(
                        self@.strategy,
                        self@.broker,
                        feed@,
                        result.strategy,
                        result.broker@,
                    )
                    &&& result.reports(self@)
                },
                Err(failure) => {
                    &&& fails(
                        self@.strategy,
                        self@.broker,
                        feed@,
                        failure.error,
                        failure.partial.strategy,
                        failure.partial.broker@,
                    )
                    &&& failure.partial.reports(self@)
                },
            },
    {
        let start = stopwatch_start();
        let mut backtest = self;
        let starting_cash = backtest.broker.get_initial_cash();
        let mut outcome = backtest.prepare();
        let ghost ready = backtest@;
        assert(feed@.subrange(0, 0) =~= Seq::empty());
        let mut i: usize = 0;
        while i < feed.len() && outcome.is_ok()
            invariant
                i <= feed.len(),
                backtest@.feed == self@.feed,
                outcome is Ok ==> ready_for(
                    self@.strategy,
                    self@.broker,
                    ready.strategy,
                    ready.broker,
                ) && fed(
                    ready.strategy,
                    ready.broker,
                    feed@.subrange(0, i as int),
                    backtest@.strategy,
                    backtest@.broker,
                ),
                outcome matches Err(error) ==> fails(
                    self@.strategy,
                    self@.broker,
                    feed@,
                    error,
                    backtest@.strategy,
                    backtest@.broker,
                ),
            decreases feed.len() - i + if outcome is Ok { 1int } else { 0int },
        {
            let ghost before = backtest@;
            outcome = backtest.step(&feed[i]);
            if outcome.is_ok() {
                i += 1;
                proof {
                    let done = feed@.subrange(0, i as int);
                    assert(done.drop_last() =~= feed@.subrange(0, i - 1));
                    assert(done.last() == feed@[i - 1]);
                    assert(outcome == Ok::<(), BacktestError>(()));
                    assert(fed(
                        ready.strategy,
                        ready.broker,
                        done.drop_last(),
                        before.strategy,
                        before.broker,
                    ));
                    assert(stepped(
                        before.strategy,
                        before.broker,
                        done.last(),
                        backtest@.strategy,
                        backtest@.broker,
                        Ok(()),
                    ));
                }
            }
        }
        assert(outcome is Ok ==> feed@.subrange(0, i as int) =~= feed@);
        let ending_cash = backtest.broker.get_cash();
        let Backtest { feed: series, broker, strategy } = backtest;
        let result = BacktestResult {
            feed_path: series.get_path().clone(),
            broker,
            strategy,
            runtime: stopwatch_read(&start),
            starting_cash,
            ending_cash,
        };
        match outcome {
            Ok(()) => Ok(result),
            Err(error) => Err(BacktestFailure { error, partial: result }),
        }
    }
}

/// One combination of a strategy, a broker and a feed: the strategy by its
/// place among the strategies of the builder.
pub struct Combination {
    pub strategy: int,
    pub broker: BrokerModel,
    pub feed: Seq<char>,
}

/// The combinations of one strategy and one broker with each of the feeds,
/// in the order of the feeds.
pub open spec fn combinations_of_broker(
    strategy: int,
    broker: BrokerModel,
    feeds: Seq<Seq<char>>,
) -> Seq<Combination> {
    Seq::new(feeds.len(), |k: int| Combination { strategy, broker, feed: feeds[k] })
}

/// The combinations of one strategy with each of the brokers and feeds:
/// broker by broker, and for each broker feed by feed.
pub open spec fn combinations_of_strategy(
    strategy: int,
    brokers: Seq<BrokerModel>,
    feeds: Seq<Seq<char>>,
) -> Seq<Combination>
    decreases brokers.len(),
{
    if brokers.len() == 0 {
        Seq::empty()
    } else {
        combinations_of_strategy(strategy, brokers.drop_last(), feeds) + combinations_of_broker(
            strategy,
            brokers.last(),
            feeds,
        )
    }
}

/// Every combination of one of the first `strategies` strategies with a
/// broker and a feed: strategy by strategy, for each strategy broker by
/// broker, and for each broker feed by feed.
pub open spec fn combinations(
    strategies: nat,
    brokers: Seq<BrokerModel>,
    feeds: Seq<Seq<char>>,
) -> Seq<Combination>
    decreases strategies,
{
    if strategies == 0 {
        Seq::empty()
    } else {
        combinations((strategies - 1) as nat, brokers, feeds) + combinations_of_strategy(
            strategies - 1,
            brokers,
            feeds,
        )
    }
}

/// Model of a builder: what has been added to it so far.
pub struct BuilderModel<S> {
    /// The paths of the feeds.
    pub feeds: Seq<Seq<char>>,
    pub brokers: Seq<BrokerModel>,
    pub strategies: Seq<S>,
}

/// Collects feeds, brokers and strategies, and builds a backtest for every
/// combination of them.
pub struct BacktestBuilder<S: Strategy + Clone> {
    feeds: Vec<TimeSeries>,
    brokers: Vec<Broker>,
    strategies: Vec<S>,
}

impl<S: Strategy + Clone> View for BacktestBuilder<S> {
    type V = BuilderModel<S>;

    closed spec fn view(&self) -> BuilderModel<S> {
        BuilderModel {
            feeds: self.feeds@.map_values(|f: TimeSeries| f@),
            brokers: self.brokers@.map_values(|b: Broker| b@),
            strategies: self.strategies@,
        }
    }
}

impl<S: Strategy + Clone> Backtest<S> {
    /// The backtest is that combination: it has the feed and a broker in
    /// that state, and its strategy is a clone of the one in that place.
    pub open spec fn is_combination(self, combination: Combination, strategies: Seq<S>) -> bool {
        &&& self@.feed == combination.feed
        &&& self@.broker == combination.broker
        &&& 0 <= combination.strategy < strategies.len()
        &&& cloned(strategies[combination.strategy], self@.strategy)
    }
}

/// The backtests are those combinations, one for one.
pub open spec fn are_combinations<S: Strategy + Clone>(
    backtests: Seq<Backtest<S>>,
    expected: Seq<Combination>,
    strategies: Seq<S>,
) -> bool {
    &&& backtests.len() == expected.len()
    &&& forall|n: int|
        0 <= n < backtests.len() ==> (#[trigger] backtests[n]).is_combination(
            expected[n],
            strategies,
        )
}

impl<S: Strategy + Clone> BacktestBuilder<S> {
    /// A builder to which nothing has been added.
    pub fn new() -> (builder: BacktestBuilder<S>)
        ensures
            builder@ == (BuilderModel::<S> {
                feeds: Seq::empty(),
                brokers: Seq::empty(),
                strategies: Seq::empty(),
            }),
    {
        let builder = BacktestBuilder { feeds: Vec::new(), brokers: Vec::new(), strategies: Vec::new() };
        assert(builder@.feeds =~= Seq::empty());
        assert(builder@.brokers =~= Seq::empty());
        builder
    }

    /// Adds a feed.
    pub fn add_feed(self, feed: TimeSeries) -> (builder: BacktestBuilder<S>)
        ensures
            builder@ == (BuilderModel { feeds: self@.feeds.push(feed@), ..self@ }),
    {
        let mut builder = self;
        builder.feeds.push(feed);
        assert(builder@.feeds =~= self@.feeds.push(feed@));
        builder
    }

    /// Adds the feeds, in their order.
    pub fn add_feeds(self, feeds: Vec<TimeSeries>) -> (builder: BacktestBuilder<S>)
        ensures
            builder@ == (BuilderModel {
                feeds: self@.feeds + feeds@.map_values(|f: TimeSeries| f@),
                ..self@
            }),
    {
        let mut builder = self;
        let mut added = feeds;
        builder.feeds.append(&mut added);
        assert(builder@.feeds =~= self@.feeds + feeds@.map_values(|f: TimeSeries| f@));
        builder
    }

    /// Adds a broker.
    pub fn add_broker(self, broker: Broker) -> (builder: BacktestBuilder<S>)
        ensures
            builder@ == (BuilderModel { brokers: self@.brokers.push(broker@), ..self@ }),
    {
        let mut builder = self;
        builder.brokers.push(broker);
        assert(builder@.brokers =~= self@.brokers.push(broker@));
        builder
    }

    /// Adds a strategy.
    pub fn add_strategy(self, strategy: S) -> (builder: BacktestBuilder<S>)
        ensures
            builder@ == (BuilderModel { strategies: self@.strategies.push(strategy), ..self@ }),
    {
        let mut builder = self;
        builder.strategies.push(strategy);
        builder
    }

    /// Builds one backtest for every combination of a strategy, a broker and
    /// a feed: strategy by strategy, for each strategy broker by broker, and
    /// for each broker feed by feed. The backtests are independent of each
    /// other: each has a broker and a strategy of its own.
    pub fn build(self) -> (backtests: Vec<Backtest<S>>)
        ensures
            are_combinations(
                backtests@,
                combinations(self@.strategies.len(), self@.brokers, self@.feeds),
                self@.strategies,
            ),
    {
        let ghost brokers = self@.brokers;
        let ghost feeds = self@.feeds;
        let mut backtests: Vec<Backtest<S>> = Vec::new();
        let mut i: usize = 0;
        while i < self.strategies.len()
            invariant
                i <= self.strategies.len(),
                brokers == self@.brokers,
                feeds == self@.feeds,
                are_combinations(
                    backtests@,
                    combinations(i as nat, brokers, feeds),
                    self@.strategies,
                ),
            decreases self.strategies.len() - i,
        {
            let ghost done = combinations(i as nat, brokers, feeds);
            let mut j: usize = 0;
            assert(brokers.subrange(0, 0) =~= Seq::empty());
            assert(done + combinations_of_strategy(i as int, brokers.subrange(0, 0), feeds) =~= done);
            while j < self.brokers.len()
                invariant
                    i < self.strategies.len(),
                    j <= self.brokers.len(),
                    brokers == self@.brokers,
                    feeds == self@.feeds,
                    done == combinations(i as nat, brokers, feeds),
                    are_combinations(
                        backtests@,
                        done + combinations_of_strategy(
                            i as int,
                            brokers.subrange(0, j as int),
                            feeds,
                        ),
                        self@.strategies,
                    ),
                decreases self.brokers.len() - j,
            {
                let ghost served = done + combinations_of_strategy(
                    i as int,
                    brokers.subrange(0, j as int),
                    feeds,
                );
                let mut k: usize = 0;
                assert(served + combinations_of_broker(
                    i as int,
                    brokers[j as int],
                    feeds.subrange(0, 0),
                ) =~= served);
                while k < self.feeds.len()
                    invariant
                        i < self.strategies.len(),
                        j < self.brokers.len(),
                        k <= self.feeds.len(),
                        brokers == self@.brokers,
                        feeds == self@.feeds,
                        are_combinations(
                            backtests@,
                            served + combinations_of_broker(
                                i as int,
                                brokers[j as int],
                                feeds.subrange(0, k as int),
                            ),
                            self@.strategies,
                        ),
                    decreases self.feeds.len() - k,
                {
                    let ghost before = backtests@;
                    let ghost expected = served + combinations_of_broker(
                        i as int,
                        brokers[j as int],
                        feeds.subrange(0, k as int),
                    );
                    let strategy = self.strategies[i].clone();
                    let backtest = Backtest {
                        feed: self.feeds[k].clone(),
                        broker: self.brokers[j].clone(),
                        strategy,
                    };
                    let ghost combination = Combination {
                        strategy: i as int,
                        broker: brokers[j as int],
                        feed: feeds[k as int],
                    };
                    assert(backtest.is_combination(combination, self@.strategies));
                    backtests.push(backtest);
                    k += 1;
                    proof {
                        assert(served + combinations_of_broker(
                            i as int,
                            brokers[j as int],
                            feeds.subrange(0, k as int),
                        ) =~= expected.push(combination));
                        assert forall|n: int| 0 <= n < backtests@.len() implies (
                        #[trigger] backtests@[n]).is_combination(
                            expected.push(combination)[n],
                            self@.strategies,
                        ) by {
                            if n < before.len() {
                                assert(backtests@[n] == before[n]);
                            }
                        }
                    }
                }
                j += 1;
                proof {
                    assert(feeds.subrange(0, feeds.len() as int) =~= feeds);
                    assert(brokers.subrange(0, j as int).drop_last() =~= brokers.subrange(
                        0,
                        j - 1,
                    ));
                    assert(done + combinations_of_strategy(
                        i as int,
                        brokers.subrange(0, j as int),
                        feeds,
                    ) =~= served + combinations_of_broker(i as int, brokers[j - 1], feeds));
                }
            }
            i += 1;
            proof {
                assert(brokers.subrange(0, brokers.len() as int) =~= brokers);
            }
        }
        backtests
    }
}

} // verus!
