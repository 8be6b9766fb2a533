//! Feeds: where a series of records is to be read from.
use crate::types::Ticker;
use core::marker::PhantomData;
use vstd::prelude::*;

verus! {

/// A series of records of one kind in a file of comma-separated values. The
/// series is only named here: the file is read when the records are asked
/// for.
#[derive(Debug, PartialEq, Eq)]
pub struct Series<T> {
    path: String,
    _phantom: PhantomData<T>,
}

/// A series of ticks: a file with the columns `open`, `high`, `low`, `close`,
/// `volume` and `datetime`.
pub type TimeSeries = Series<Ticker>;

impl<T> View for Series<T> {
    /// The path of the file.
    type V = Seq<char>;

    closed spec fn view(&self) -> Seq<char> {
        self.path@
    }
}

impl<T> Clone for Series<T> {
    fn clone(&self) -> (copy: Series<T>)
        ensures
            copy@ == self@,
    {
        Series { path: self.path.clone(), _phantom: PhantomData }
    }
}

impl<T> Series<T> {
    /// The series in the file at `path`.
    pub fn from_csv(path: &str) -> (series: Series<T>)
        ensures
            series@ == path@,
    {
        Series { path: path.to_owned(), _phantom: PhantomData }
    }

    /// The path of the file.
    pub fn get_path(&self) -> (path: &String)
        ensures
            path@ == self@,
    {
        &self.path
    }
}

} // verus!
