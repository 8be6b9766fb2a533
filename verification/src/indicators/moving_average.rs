//! A moving average of the closes that precede the one it drops.
use crate::indicators::sma::{mean, mean_of};
use crate::types::Ticker;
use vstd::prelude::*;

verus! {

/// Model of the moving average.
pub struct MovingAverageModel {
    pub period: nat,
    /// The closes that are kept, oldest first.
    pub values: Seq<i64>,
    /// The latest average.
    pub value: Option<i64>,
}

impl MovingAverageModel {
    /// The average after a tick with that close. The close joins the closes
    /// that are kept. Once they are `period`, the oldest leaves, and the mean
    /// of those that are left is the new average; if none is left, there is
    /// no average.
    pub open spec fn update(self, close: i64) -> MovingAverageModel {
        let seen = self.values.push(close);
        if seen.len() < self.period {
            MovingAverageModel { values: seen, ..self }
        } else {
            let kept = seen.drop_first();
            MovingAverageModel {
                values: kept,
                value: if kept.len() == 0 {
                    None
                } else {
                    Some(mean(kept) as i64)
                },
                ..self
            }
        }
    }
}

/// The mean of the closes since the oldest was dropped.
#[derive(Debug, Clone)]
pub struct MovingAverage {
    period: u32,
    values: Vec<i64>,
    /// The latest average.
    pub value: Option<i64>,
}

impl View for MovingAverage {
    type V = MovingAverageModel;

    closed spec fn view(&self) -> MovingAverageModel {
        MovingAverageModel { period: self.period as nat, values: self.values@, value: self.value }
    }
}

impl MovingAverage {
    /// An average with that period that has seen no tick.
    pub fn new(period: u32) -> (average: MovingAverage)
        ensures
            average@ == (MovingAverageModel {
                period: period as nat,
                values: Seq::empty(),
                value: None,
            }),
    {
        MovingAverage { period, values: Vec::new(), value: None }
    }

    /// Takes the tick's close into account.
    pub fn update(&mut self, ticker: &Ticker)
        ensures
            final(self)@ == old(self)@.update(ticker.close),
    {
        self.values.push(ticker.close);
        if self.values.len() < self.period as usize {
            return ;
        }
        let _ = self.values.remove(0);
        if self.values.len() == 0 {
            self.value = None;
            return ;
        }
        self.value = Some(mean_of(&self.values));
    }

    /// The latest average.
    pub fn get_value(&self) -> (value: Option<i64>)
        ensures
            value == self@.value,
    {
        self.value
    }
}

} // verus!
