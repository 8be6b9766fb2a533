//! The relative strength index: how much of the recent movement of the
//! price was upwards.
use crate::indicators::{Indicator, IndicatorError, IndicatorResult};
use crate::types::Ticker;
use vstd::prelude::*;

verus! {

/// The index counts this many units per point; it runs from zero to a
/// hundred points.
pub const RSI_SCALE: i64 = 1_000_000;

/// The sum of the moves.
pub open spec fn total(moves: Seq<u64>) -> nat
    decreases moves.len(),
{
    if moves.len() == 0 {
        0
    } else {
        total(moves.drop_last()) + moves.last() as nat
    }
}

/// The first `count` of the moves, or all of them if they are fewer.
pub open spec fn earliest(moves: Seq<u64>, count: nat) -> Seq<u64> {
    if moves.len() <= count {
        moves
    } else {
        moves.subrange(0, count as int)
    }
}

/// By how much the tick closed above its open, if it did.
pub open spec fn gain_of(ticker: Ticker) -> nat {
    if ticker.close > ticker.open {
        (ticker.close - ticker.open) as nat
    } else {
        0
    }
}

/// By how much the tick closed below its open, if it did.
pub open spec fn loss_of(ticker: Ticker) -> nat {
    if ticker.close < ticker.open {
        (ticker.open - ticker.close) as nat
    } else {
        0
    }
}

/// The index for a gain and a loss: the share of the gain in the two, out of
/// a hundred points, rounded down. There is none where the price has not
/// moved at all.
pub open spec fn strength(gain: nat, loss: nat) -> Option<i64> {
    if gain + loss == 0 {
        None
    } else {
        Some(((100 * RSI_SCALE * gain) / (gain + loss) as int) as i64)
    }
}

/// The index lies between zero and a hundred points.
pub proof fn lemma_strength_in_range(gain: nat, loss: nat)
    ensures
        strength(gain, loss) matches Some(value) ==> 0 <= value <= 100 * RSI_SCALE,
{
    if gain + loss > 0 {
        let g = gain as int;
        let b = (gain + loss) as int;
        assert(0 <= (100_000_000 * g) / b <= 100_000_000) by (nonlinear_arith)
            requires
                0 <= g <= b,
                b > 0,
        ;
        assert(100 * RSI_SCALE * gain == 100_000_000 * g);
    }
}

/// Model of the index.
pub struct RsiModel {
    pub period: nat,
    pub smooth: bool,
    /// The gains of the first `period` ticks.
    pub gains: Seq<u64>,
    /// The losses of the first `period` ticks.
    pub losses: Seq<u64>,
    /// The average gain as of the step before.
    pub previous_average_gain: u64,
    /// The average loss as of the step before.
    pub previous_average_loss: u64,
    /// The values computed so far, oldest first.
    pub values: Seq<i64>,
}

impl RsiModel {
    /// The average of the gains of the first `period` ticks, rounded down.
    pub open spec fn average_gain(self) -> nat {
        total(earliest(self.gains, self.period)) / self.period
    }

    /// The average of the losses of the first `period` ticks, rounded down.
    pub open spec fn average_loss(self) -> nat {
        total(earliest(self.losses, self.period)) / self.period
    }

    /// The value that a tick gives once the first `period` ticks are in.
    /// Smoothed, it is the strength of the averages of the step before,
    /// weighted `period - 1` to one against the tick's own gain and loss;
    /// plain, it is the strength of the averages of the first ticks.
    pub open spec fn next_value(self, ticker: Ticker) -> Option<i64> {
        if self.smooth {
            strength(
                (self.previous_average_gain * (self.period - 1) + gain_of(ticker)) as nat,
                (self.previous_average_loss * (self.period - 1) + loss_of(ticker)) as nat,
            )
        } else {
            strength(self.average_gain(), self.average_loss())
        }
    }

    /// The index after a tick. With a period of zero nothing changes. The
    /// first `period` ticks only leave their gains and losses. Every later
    /// tick leaves the averages for the step after it, and gives a value
    /// unless the price has not moved: then the values stay as they were.
    pub open spec fn update(self, ticker: Ticker) -> RsiModel {
        if self.period == 0 {
            self
        } else if self.gains.len() < self.period {
            RsiModel {
                gains: self.gains.push(gain_of(ticker) as u64),
                losses: self.losses.push(loss_of(ticker) as u64),
                ..self
            }
        } else {
            RsiModel {
                previous_average_gain: self.average_gain() as u64,
                previous_average_loss: self.average_loss() as u64,
                values: match self.next_value(ticker) {
                    Some(value) => self.values.push(value),
                    None => self.values,
                },
                ..self
            }
        }
    }
}

/// The sum of some moves is at most the greatest move times their number.
pub proof fn lemma_total_bound(moves: Seq<u64>)
    ensures
        total(moves) <= moves.len() * u64::MAX,
    decreases moves.len(),
{
    if moves.len() > 0 {
        lemma_total_bound(moves.drop_last());
        assert(moves.len() * u64::MAX == (moves.len() - 1) * u64::MAX + u64::MAX)
            by (nonlinear_arith);
    }
}

/// The average of the first `period` of the moves, rounded down.
fn average_of_earliest(moves: &Vec<u64>, period: u32) -> (average: u64)
    requires
        period > 0,
    ensures
        average == total(earliest(moves@, period as nat)) / (period as nat),
{
    let count: usize = if moves.len() <= period as usize {
        moves.len()
    } else {
        period as usize
    };
    let ghost first = earliest(moves@, period as nat);
    assert(first =~= moves@.subrange(0, count as int));
    let mut sum: u128 = 0;
    let mut i: usize = 0;
    while i < count
        invariant
            i <= count <= moves.len(),
            count <= period,
            sum == total(moves@.subrange(0, i as int)),
        decreases count - i,
    {
        proof {
            let next = moves@.subrange(0, i + 1);
            assert(next.drop_last() =~= moves@.subrange(0, i as int));
            lemma_total_bound(next);
            assert(next.len() * u64::MAX <= u32::MAX * u64::MAX) by (nonlinear_arith)
                requires
                    0 <= next.len() <= u32::MAX,
            ;
        }
        sum = sum + moves[i] as u128;
        i += 1;
    }
    proof {
        lemma_total_bound(first);
        let n = period as int;
        let t = total(first) as int;
        assert(t / n <= u64::MAX) by (nonlinear_arith)
            requires
                n > 0,
                0 <= t <= first.len() * u64::MAX,
                first.len() <= n,
        ;
    }
    (sum / period as u128) as u64
}

/// The index for a gain and a loss.
fn strength_of(gain: u128, loss: u128) -> (value: Option<i64>)
    requires
        gain <= 0x2_0000_0000_0000_0000_0000_0000,
        loss <= 0x2_0000_0000_0000_0000_0000_0000,
    ensures
        value == strength(gain as nat, loss as nat),
{
    if gain == 0 && loss == 0 {
        return None;
    }
    let scaled: u128 = 100_000_000 * gain;
    let both: u128 = gain + loss;
    proof {
        let g = gain as int;
        let b = both as int;
        assert((100_000_000 * g) / b <= 100_000_000) by (nonlinear_arith)
            requires
                0 <= g <= b,
                b > 0,
        ;
        assert(100 * RSI_SCALE * (gain as nat) == scaled);
    }
    Some((scaled / both) as i64)
}

/// The relative strength index over a number of ticks, in units of
/// [`RSI_SCALE`] per point.
#[derive(Debug, Clone)]
pub struct RSI {
    period: u32,
    smooth: bool,
    gains: Vec<u64>,
    losses: Vec<u64>,
    previous_average_gain: u64,
    previous_average_loss: u64,
    values: Vec<i64>,
}

impl View for RSI {
    type V = RsiModel;

    closed spec fn view(&self) -> RsiModel {
        RsiModel {
            period: self.period as nat,
            smooth: self.smooth,
            gains: self.gains@,
            losses: self.losses@,
            previous_average_gain: self.previous_average_gain,
            previous_average_loss: self.previous_average_loss,
            values: self.values@,
        }
    }
}

impl RsiModel {
    /// The index as it starts.
    pub open spec fn starting(period: nat, smooth: bool) -> RsiModel {
        RsiModel {
            period,
            smooth,
            gains: Seq::empty(),
            losses: Seq::empty(),
            previous_average_gain: 0,
            previous_average_loss: 0,
            values: Seq::empty(),
        }
    }
}

impl Default for RSI {
    /// A smoothed index over fourteen ticks.
    fn default() -> (rsi: RSI)
        ensures
            rsi@ == RsiModel::starting(14, true),
    {
        RSI::new(14, true)
    }
}

impl RSI {
    /// An index over `period` ticks that has seen none yet.
    pub fn new(period: u32, smooth: bool) -> (rsi: RSI)
        ensures
            rsi@ == RsiModel::starting(period as nat, smooth),
    {
        RSI {
            period,
            smooth,
            gains: Vec::new(),
            losses: Vec::new(),
            previous_average_gain: 0,
            previous_average_loss: 0,
            values: Vec::new(),
        }
    }
}

impl Indicator for RSI {
    type Result = i64;

    /// Takes the tick into account. With a period of at least one tick this
    /// never fails: a tick that gives no value, because the price has not
    /// moved, leaves the values as they were. Every value lies between zero
    /// and a hundred points. With a period of zero there is never enough
    /// data, and every tick fails with `InsufficientData`.
    fn update(&mut self, ticker: &Ticker) -> (res: IndicatorResult<()>)
        ensures
            final(self)@ == old(self)@.update(*ticker),
            res is Ok == (old(self)@.period > 0),
            res is Err ==> res == Err::<(), IndicatorError>(IndicatorError::InsufficientData),
            old(self)@.next_value(*ticker) matches Some(value) ==> 0 <= value <= 100 * RSI_SCALE,
            old(self)@.next_value(*ticker) is None ==> final(self)@.values == old(self)@.values,
    {
        proof {
            let model = self@;
            lemma_strength_in_range(
                (model.previous_average_gain * (model.period - 1) + gain_of(*ticker)) as nat,
                (model.previous_average_loss * (model.period - 1) + loss_of(*ticker)) as nat,
            );
            lemma_strength_in_range(model.average_gain(), model.average_loss());
        }
        if self.period == 0 {
            return Err(IndicatorError::InsufficientData);
        }
        let current_gain: u64 = if ticker.close > ticker.open {
            (ticker.close as i128 - ticker.open as i128) as u64
        } else {
            0
        };
        let current_loss: u64 = if ticker.close < ticker.open {
            (ticker.open as i128 - ticker.close as i128) as u64
        } else {
            0
        };
        if self.gains.len() < self.period as usize {
            self.gains.push(current_gain);
            self.losses.push(current_loss);
            return Ok(());
        }
        let average_gain = average_of_earliest(&self.gains, self.period);
        let average_loss = average_of_earliest(&self.losses, self.period);
        let value = if self.smooth {
            let weight: u128 = (self.period - 1) as u128;
            assert(self.previous_average_gain * weight <= u64::MAX * u32::MAX) by (nonlinear_arith)
                requires
                    0 <= self.previous_average_gain <= u64::MAX,
                    0 <= weight <= u32::MAX,
            ;
            assert(self.previous_average_loss * weight <= u64::MAX * u32::MAX) by (nonlinear_arith)
                requires
                    0 <= self.previous_average_loss <= u64::MAX,
                    0 <= weight <= u32::MAX,
            ;
            strength_of(
                self.previous_average_gain as u128 * weight + current_gain as u128,
                self.previous_average_loss as u128 * weight + current_loss as u128,
            )
        } else {
            strength_of(average_gain as u128, average_loss as u128)
        };
        self.previous_average_gain = average_gain;
        self.previous_average_loss = average_loss;
        if let Some(v) = value {
            self.values.push(v);
        }
        Ok(())
    }

    /// The latest value. Fails with `InsufficientData` before the first
    /// value has been computed.
    fn get_value(&self) -> (res: IndicatorResult<i64>)
        ensures
            match res {
                Ok(value) => self@.values.len() > 0 && value == self@.values.last(),
                Err(error) => self@.values.len() == 0 && error == IndicatorError::InsufficientData,
            },
    {
        if self.values.len() == 0 {
            return Err(IndicatorError::InsufficientData);
        }
        Ok(self.values[self.values.len() - 1])
    }

    /// The value computed at the `index`'th step that gave one. Fails with
    /// `IndexOutOfRange` where fewer values have been computed.
    fn at(&self, index: usize) -> (res: IndicatorResult<i64>)
        ensures
            match res {
                Ok(value) => index < self@.values.len() && value == self@.values[index as int],
                Err(error) => index >= self@.values.len() && error
                    == IndicatorError::IndexOutOfRange,
            },
    {
        if index < self.values.len() {
            return Ok(self.values[index]);
        }
        Err(IndicatorError::IndexOutOfRange)
    }
}

} // verus!
