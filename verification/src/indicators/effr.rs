//! The effective federal funds rate: the rate in force at each tick, looked
//! up in a dated series of rates.
use crate::clock::nanos_between;
use crate::indicators::{Indicator, IndicatorError, IndicatorResult};
use crate::types::{Ticker, Timestamp};
use vstd::prelude::*;

verus! {

/// One record of the series: the rate on one day. The rate is in units of
/// [`crate::types::RATE_SCALE`] per percent.
#[derive(Debug, Clone, Copy, PartialEq, Eq, Structural)]
pub struct DFF {
    pub dff: i64,
    pub date: Timestamp,
}

/// Whether one of the records is dated at `at` or later.
pub open spec fn reach(records: Seq<Option<DFF>>, at: Timestamp) -> bool
    decreases records.len(),
{
    if records.len() == 0 {
        false
    } else {
        match records[0] {
            Some(record) if record.date.instant() >= at.instant() => true,
            _ => reach(records.drop_first(), at),
        }
    }
}

/// Model of the indicator.
pub struct EffrModel {
    /// The last record that was passed over as too early.
    pub previous: Option<DFF>,
    /// The rate in force.
    pub current: Option<i64>,
    /// The date of the record that the rate in force is from.
    pub date: Timestamp,
    /// The records that have not been read yet, `None` for one that could
    /// not be read.
    pub unread: Seq<Option<DFF>>,
}

impl EffrModel {
    /// The indicator before any update, over those records.
    pub open spec fn starting(records: Seq<Option<DFF>>) -> EffrModel {
        EffrModel {
            previous: None,
            current: None,
            date: Timestamp { secs: 0, nanos: 0 },
            unread: records,
        }
    }

    /// Whether one of the unread records is dated at `at` or later.
    pub open spec fn reaches(self, at: Timestamp) -> bool {
        reach(self.unread, at)
    }

    /// The indicator after it has read on for a tick at `at`. It reads
    /// records up to the first that is dated at `at` or later, and takes the
    /// rate and the date of that one. The records before it are passed over,
    /// the last of them remembered. Where no record is as late, all are read
    /// and the rate stays as it was.
    pub open spec fn update(self, at: Timestamp) -> EffrModel
        decreases self.unread.len(),
    {
        if self.unread.len() == 0 {
            self
        } else {
            let rest = self.unread.drop_first();
            match self.unread[0] {
                None => (EffrModel { unread: rest, ..self }).update(at),
                Some(record) => if record.date.instant() >= at.instant() {
                    EffrModel {
                        current: Some(record.dff),
                        date: record.date,
                        unread: rest,
                        ..self
                    }
                } else {
                    (EffrModel { previous: Some(record), unread: rest, ..self }).update(at)
                },
            }
        }
    }
}

/// The effective federal funds rate as of the latest tick.
#[derive(Debug)]
pub struct EFFR {
    previous: Option<DFF>,
    current: Option<i64>,
    date: Timestamp,
    records: Vec<Option<DFF>>,
    read: usize,
}

impl View for EFFR {
    type V = EffrModel;

    closed spec fn view(&self) -> EffrModel {
        EffrModel {
            previous: self.previous,
            current: self.current,
            date: self.date,
            unread: if self.read <= self.records@.len() {
                self.records@.subrange(self.read as int, self.records@.len() as int)
            } else {
                Seq::empty()
            },
        }
    }
}

impl Clone for EFFR {
    /// A copy with the same rate in force that reads the series from its
    /// start again.
    fn clone(&self) -> (copy: EFFR)
        ensures
            copy@.previous == self@.previous,
            copy@.current == self@.current,
            copy@.date == self@.date,
            copy@.unread == self.series(),
    {
        let records = self.records.clone();
        assert(records@ =~= self.records@);
        let copy = EFFR {
            previous: self.previous,
            current: self.current,
            date: self.date,
            records,
            read: 0,
        };
        assert(copy@.unread =~= self.records@);
        copy
    }
}

impl EFFR {
    /// All the records of the series, read or not.
    pub closed spec fn series(&self) -> Seq<Option<DFF>> {
        self.records@
    }

    /// The indicator over the records of a series, in their order; `None`
    /// stands for a record that could not be read.
    pub fn from_records(records: Vec<Option<DFF>>) -> (effr: EFFR)
        ensures
            effr@ == EffrModel::starting(records@),
            effr.series() == records@,
    {
        let effr = EFFR {
            previous: None,
            current: None,
            date: Timestamp { secs: 0, nanos: 0 },
            records,
            read: 0,
        };
        assert(effr@.unread =~= records@);
        effr
    }

    /// The date of the record that the rate in force is from.
    pub fn get_date(&self) -> (date: Timestamp)
        ensures
            date == self@.date,
    {
        self.date
    }
}

impl Indicator for EFFR {
    type Result = i64;

    /// Reads on to the first record dated at the tick's time or later. Fails
    /// with `InsufficientData` where the series ends before that.
    fn update(&mut self, ticker: &Ticker) -> (res: IndicatorResult<()>)
        ensures
            final(self)@ == old(self)@.update(ticker.datetime),
            final(self).series() == old(self).series(),
            res is Ok == old(self)@.reaches(ticker.datetime),
            res is Err ==> res == Err::<(), IndicatorError>(IndicatorError::InsufficientData),
    {
        if self.read > self.records.len() {
            return Err(IndicatorError::InsufficientData);
        }
        while self.read < self.records.len()
            invariant
                self.read <= self.records.len(),
                self.records == old(self).records,
                self@.update(ticker.datetime) == old(self)@.update(ticker.datetime),
                self@.reaches(ticker.datetime) == old(self)@.reaches(ticker.datetime),
            decreases self.records.len() - self.read,
        {
            let ghost before = self@;
            assert(before.unread.len() > 0 && before.unread[0] == self.records@[self.read as int]);
            assert(before.unread.drop_first() =~= self.records@.subrange(
                self.read + 1,
                self.records@.len() as int,
            ));
            let line = self.records[self.read];
            self.read = self.read + 1;
            match line {
                Some(record) => {
                    if nanos_between(ticker.datetime, record.date) >= 0 {
                        self.current = Some(record.dff);
                        self.date = record.date;
                        return Ok(());
                    }
                    self.previous = Some(record);
                },
                None => {},
            }
        }
        Err(IndicatorError::InsufficientData)
    }

    /// The rate in force. Fails with `InsufficientData` before the first
    /// update that found one.
    fn get_value(&self) -> (res: IndicatorResult<i64>)
        ensures
            match res {
                Ok(rate) => self@.current == Some(rate),
                Err(error) => self@.current is None && error == IndicatorError::InsufficientData,
            },
    {
        match self.current {
            Some(rate) => Ok(rate),
            None => Err(IndicatorError::InsufficientData),
        }
    }

    /// The indicator keeps no history: fails with `IndexOutOfRange`.
    fn at(&self, index: usize) -> (res: IndicatorResult<i64>)
        ensures
            res == Err::<i64, IndicatorError>(IndicatorError::IndexOutOfRange),
    {
        Err(IndicatorError::IndexOutOfRange)
    }
}

} // verus!
