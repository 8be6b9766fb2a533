//! The simple moving average of the closing prices.
use crate::arith::div_floor;
use crate::indicators::{Indicator, IndicatorError, IndicatorResult};
use crate::types::Ticker;
use vstd::prelude::*;

verus! {

/// The sum of the prices.
pub open spec fn sum(prices: Seq<i64>) -> int
    decreases prices.len(),
{
    if prices.len() == 0 {
        0
    } else {
        sum(prices.drop_last()) + prices.last()
    }
}

/// The last `count` of the prices, or all of them if they are fewer.
pub open spec fn latest(prices: Seq<i64>, count: nat) -> Seq<i64> {
    if prices.len() <= count {
        prices
    } else {
        prices.subrange(prices.len() - count, prices.len() as int)
    }
}

/// The mean of the prices, rounded down.
pub open spec fn mean(prices: Seq<i64>) -> int {
    sum(prices) / (prices.len() as int)
}

/// Model of a simple moving average.
pub struct SmaModel {
    /// The number of closes that a value is the mean of.
    pub period: nat,
    /// The latest closes: at most `period` once a value has been computed.
    pub ticks: Seq<i64>,
    /// The values computed so far, oldest first.
    pub values: Seq<i64>,
}

impl SmaModel {
    /// The average after a tick with that close. The close joins the latest
    /// closes; once there are `period` of them, their mean is the next value,
    /// and only they are kept. With a period of zero nothing changes.
    pub open spec fn update(self, close: i64) -> SmaModel {
        let seen = self.ticks.push(close);
        if self.period == 0 {
            self
        } else if seen.len() < self.period {
            SmaModel { ticks: seen, ..self }
        } else {
            let window = latest(seen, self.period);
            SmaModel { ticks: window, values: self.values.push(mean(window) as i64), ..self }
        }
    }
}

/// The sum of prices lies between the least and the greatest price, times
/// their number.
pub proof fn lemma_sum_bounds(prices: Seq<i64>)
    ensures
        prices.len() * i64::MIN <= sum(prices) <= prices.len() * i64::MAX,
    decreases prices.len(),
{
    if prices.len() > 0 {
        lemma_sum_bounds(prices.drop_last());
        assert(prices.len() * i64::MIN == (prices.len() - 1) * i64::MIN + i64::MIN)
            by (nonlinear_arith);
        assert(prices.len() * i64::MAX == (prices.len() - 1) * i64::MAX + i64::MAX)
            by (nonlinear_arith);
    }
}

/// The mean of some prices is a price: it lies between the least and the
/// greatest.
pub proof fn lemma_mean_is_a_price(prices: Seq<i64>)
    requires
        prices.len() > 0,
    ensures
        i64::MIN <= mean(prices) <= i64::MAX,
{
    lemma_sum_bounds(prices);
    let n = prices.len() as int;
    let total = sum(prices);
    assert(i64::MIN <= total / n <= i64::MAX) by (nonlinear_arith)
        requires
            n > 0,
            n * i64::MIN <= total <= n * i64::MAX,
    ;
}

/// The mean of the prices, rounded down.
pub fn mean_of(prices: &Vec<i64>) -> (value: i64)
    requires
        prices@.len() > 0,
    ensures
        value == mean(prices@),
{
    let mut total: i128 = 0;
    let mut i: usize = 0;
    while i < prices.len()
        invariant
            i <= prices.len(),
            total == sum(prices@.subrange(0, i as int)),
        decreases prices.len() - i,
    {
        proof {
            let next = prices@.subrange(0, i + 1);
            assert(next.drop_last() =~= prices@.subrange(0, i as int));
            lemma_sum_bounds(next);
            assert(next.len() * i64::MIN >= usize::MAX * i64::MIN) by (nonlinear_arith)
                requires
                    0 <= next.len() <= usize::MAX,
            ;
            assert(next.len() * i64::MAX <= usize::MAX * i64::MAX) by (nonlinear_arith)
                requires
                    0 <= next.len() <= usize::MAX,
            ;
        }
        total = total + prices[i] as i128;
        i += 1;
    }
    proof {
        assert(prices@.subrange(0, i as int) =~= prices@);
        lemma_mean_is_a_price(prices@);
    }
    div_floor(total, prices.len() as i128) as i64
}

/// Simple moving average: the mean of the last `period` closes.
#[derive(Debug, Clone)]
pub struct SMA {
    period: u32,
    ticks: Vec<i64>,
    values: Vec<i64>,
}

impl View for SMA {
    type V = SmaModel;

    closed spec fn view(&self) -> SmaModel {
        SmaModel { period: self.period as nat, ticks: self.ticks@, values: self.values@ }
    }
}

impl Default for SMA {
    /// A moving average over ten ticks.
    fn default() -> (sma: SMA)
        ensures
            sma@ == (SmaModel { period: 10, ticks: Seq::empty(), values: Seq::empty() }),
    {
        SMA::new(10)
    }
}

impl SMA {
    /// A moving average over `period` ticks that has seen none yet.
    pub fn new(period: u32) -> (sma: SMA)
        ensures
            sma@ == (SmaModel { period: period as nat, ticks: Seq::empty(), values: Seq::empty() }),
    {
        SMA { period, ticks: Vec::new(), values: Vec::new() }
    }

    /// The number of ticks that a value is the mean of.
    pub fn period(&self) -> (period: u32)
        ensures
            period == self@.period,
    {
        self.period
    }
}

impl Indicator for SMA {
    type Result = i64;

    /// Takes the tick's close into account. Fails with `InsufficientData`,
    /// and changes nothing, where the period is zero.
    fn update(&mut self, ticker: &Ticker) -> (res: IndicatorResult<()>)
        ensures
            final(self)@ == old(self)@.update(ticker.close),
            res is Ok == (old(self)@.period > 0),
            res is Err ==> res == Err::<(), IndicatorError>(IndicatorError::InsufficientData),
    {
        if self.period == 0 {
            return Err(IndicatorError::InsufficientData);
        }
        self.ticks.push(ticker.close);
        let ghost seen = self.ticks@;
        if self.ticks.len() < self.period as usize {
            return Ok(());
        }
        while self.ticks.len() > self.period as usize
            invariant
                self.period == old(self).period,
                self.period > 0,
                self.values == old(self).values,
                seen.len() >= self.period,
                self.period <= self.ticks@.len() <= seen.len(),
                self.ticks@ == seen.subrange(seen.len() - self.ticks@.len(), seen.len() as int),
            decreases self.ticks.len(),
        {
            let ghost kept = self.ticks@;
            let _ = self.ticks.remove(0);
            assert(self.ticks@ =~= kept.subrange(1, kept.len() as int));
            assert(self.ticks@ =~= seen.subrange(
                seen.len() - self.ticks@.len(),
                seen.len() as int,
            ));
        }
        assert(self.ticks@ =~= latest(seen, self.period as nat));
        let value = mean_of(&self.ticks);
        self.values.push(value);
        Ok(())
    }

    /// The latest value. Fails with `InsufficientData` before the first
    /// value has been computed.
    fn get_value(&self) -> (res: IndicatorResult<i64>)
        ensures
            match res {
                Ok(value) => self@.values.len() > 0 && value == self@.values.last(),
                Err(error) => self@.values.len() == 0 && error == IndicatorError::InsufficientData,
            },
    {
        if self.values.len() == 0 {
            return Err(IndicatorError::InsufficientData);
        }
        Ok(self.values[self.values.len() - 1])
    }

    /// The value computed at the `index`'th step that gave one. Fails with
    /// `IndexOutOfRange` where fewer values have been computed.
    fn at(&self, index: usize) -> (res: IndicatorResult<i64>)
        ensures
            match res {
                Ok(value) => index < self@.values.len() && value == self@.values[index as int],
                Err(error) => index >= self@.values.len() && error
                    == IndicatorError::IndexOutOfRange,
            },
    {
        if index < self.values.len() {
            return Ok(self.values[index]);
        }
        Err(IndicatorError::IndexOutOfRange)
    }
}

} // verus!
