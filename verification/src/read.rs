//! Reads: who may take a connection of the pool, and what the rows come to.

use crate::async_sqlite::AsyncSqlite;
use crate::error::ReadError;
use crate::ready::Readiness;
use vstd::prelude::*;

verus! {

/// What rows that so far came to `before` come to with one more row.
pub open spec fn extended<T, E>(before: Result<Seq<T>, E>, row: Result<T, E>) -> Result<
    Seq<T>,
    E,
> {
    match before {
        Err(error) => Err(error),
        Ok(values) => match row {
            Ok(value) => Ok(values.push(value)),
            Err(error) => Err(error),
        },
    }
}

/// What the rows of a query come to: all of them in order, or the first error.
pub open spec fn collected<T, E>(rows: Seq<Result<T, E>>) -> Result<Seq<T>, E>
    decreases rows.len(),
{
    if rows.len() == 0 {
        Ok(Seq::empty())
    } else {
        extended(collected(rows.drop_last()), rows.last())
    }
}

/// Gathers the rows of a query up to the first that could not be read.
pub struct RowCollector<T, E> {
    values: Vec<T>,
    error: Option<E>,
}

impl<T, E> RowCollector<T, E> {
    /// What the rows accepted so far come to.
    pub closed spec fn result(&self) -> Result<Seq<T>, E> {
        match self.error {
            Some(error) => Err(error),
            None => Ok(self.values@),
        }
    }

    /// A collector that has accepted no row.
    pub fn new() -> (collector: Self)
        ensures
            collector.result() == collected(Seq::<Result<T, E>>::empty()),
    {
        RowCollector { values: Vec::new(), error: None }
    }

    /// Accepts the next row and tells whether another one is wanted, which is so
    /// until a row could not be read. After that the first error stays.
    pub fn accept(&mut self, row: Result<T, E>) -> (more: bool)
        ensures
            final(self).result() == extended(old(self).result(), row),
            forall|rows: Seq<Result<T, E>>|
                old(self).result() == #[trigger] collected(rows) ==> final(self).result()
                    == collected(rows.push(row)),
            more == final(self).result() is Ok,
    {
        proof {
            assert forall|rows: Seq<Result<T, E>>| #[trigger]
                collected(rows.push(row)) == extended(collected(rows), row) by {
                law_rows_are_collected_one_by_one(rows, row);
            }
        }
        if self.error.is_some() {
            return false;
        }
        match row {
            Ok(value) => {
                self.values.push(value);
                true
            },
            Err(error) => {
                self.error = Some(error);
                false
            },
        }
    }

    /// The rows, or the first error.
    pub fn finish(self) -> (rows: Result<Vec<T>, E>)
        ensures
            match self.result() {
                Ok(values) => rows matches Ok(v) && v@ == values,
                Err(error) => rows == Err::<Vec<T>, E>(error),
            },
    {
        match self.error {
            Some(error) => Err(error),
            None => Ok(self.values),
        }
    }
}

/// A collector that holds what some rows come to, and accepts one more, holds
/// what all of them come to.
pub proof fn law_rows_are_collected_one_by_one<T, E>(rows: Seq<Result<T, E>>, row: Result<T, E>)
    ensures
        collected(rows.push(row)) == extended(collected(rows), row),
{
    assert(rows.push(row).drop_last() =~= rows);
}

/// Rows that can all be read are all given, in order.
pub proof fn law_readable_rows_are_all_collected<T, E>(rows: Seq<Result<T, E>>)
    requires
        forall|i: int| 0 <= i < rows.len() ==> #[trigger] rows[i] is Ok,
    ensures
        collected(rows) matches Ok(values) && values.len() == rows.len() && forall|i: int|
            0 <= i < rows.len() ==> rows[i] == Ok::<T, E>(#[trigger] values[i]),
    decreases rows.len(),
{
    if rows.len() > 0 {
        law_readable_rows_are_all_collected(rows.drop_last());
        assert(rows.last() is Ok);
        let earlier = collected(rows.drop_last())->Ok_0;
        let values = collected(rows)->Ok_0;
        assert forall|i: int| 0 <= i < rows.len() implies rows[i] == Ok::<T, E>(
            #[trigger] values[i],
        ) by {
            if i < rows.len() - 1 {
                assert(values[i] == earlier[i]);
                assert(rows[i] == rows.drop_last()[i]);
            }
        }
    }
}

/// The first row that cannot be read decides, whatever rows follow it.
pub proof fn law_first_error_decides<T, E>(rows: Seq<Result<T, E>>, at: int)
    requires
        0 <= at < rows.len(),
        rows[at] is Err,
        forall|i: int| 0 <= i < at ==> #[trigger] rows[i] is Ok,
    ensures
        collected(rows) == Err::<Seq<T>, E>(rows[at]->Err_0),
    decreases rows.len(),
{
    if at == rows.len() - 1 {
        let before = rows.drop_last();
        assert forall|i: int| 0 <= i < before.len() implies #[trigger] before[i] is Ok by {
            assert(rows[i] is Ok);
        }
        law_readable_rows_are_all_collected(before);
    } else {
        let before = rows.drop_last();
        assert forall|i: int| 0 <= i < at implies #[trigger] before[i] is Ok by {
            assert(rows[i] is Ok);
        }
        law_first_error_decides(before, at);
    }
}

impl AsyncSqlite {
    /// Takes a connection of the pool through `get`, once reads are served.
    /// Before that the pool is not asked; a pool that gives none makes the read
    /// invalid too.
    pub fn get_read_conn<C, P, E, G: FnOnce() -> Result<C, P>>(&self, readiness: Readiness, get: G) -> (conn:
        Result<C, ReadError<E>>)
        requires
            readiness@.reads ==> call_requires(get, ()),
        ensures
            !readiness@.reads ==> conn == Err::<C, ReadError<E>>(ReadError::InvalidQuery),
            readiness@.reads ==> exists|got: Result<C, P>|
                {
                    &&& #[trigger] call_ensures(get, (), got)
                    &&& conn == (match got {
                        Ok(c) => Ok::<C, ReadError<E>>(c),
                        Err(_) => Err(ReadError::InvalidQuery),
                    })
                },
    {
        if !readiness.serves_reads() {
            return Err(ReadError::InvalidQuery);
        }
        match get() {
            Ok(conn) => Ok(conn),
            Err(_) => Err(ReadError::InvalidQuery),
        }
    }

    /// Reads all rows of a query: takes a connection as `get_read_conn` does and
    /// has `fetch` collect the rows on it.
    pub fn query_read_all<T, C, P, E, G, F>(&self, readiness: Readiness, get: G, fetch: F) -> (rows: Result<
        Vec<T>,
        ReadError<E>,
    >) where G: FnOnce() -> Result<C, P>, F: FnOnce(C) -> Result<RowCollector<T, E>, E>
        requires
            readiness@.reads ==> call_requires(get, ()),
            readiness@.reads ==> forall|c: C|
                call_ensures(get, (), Ok::<C, P>(c)) ==> #[trigger] call_requires(fetch, (c,)),
        ensures
            !readiness@.reads ==> rows == Err::<Vec<T>, ReadError<E>>(ReadError::InvalidQuery),
            readiness@.reads ==> exists|got: Result<C, P>|
                {
                    &&& #[trigger] call_ensures(get, (), got)
                    &&& match got {
                        Err(_) => rows == Err::<Vec<T>, ReadError<E>>(ReadError::InvalidQuery),
                        Ok(c) => exists|fetched: Result<RowCollector<T, E>, E>|
                            {
                                &&& #[trigger] call_ensures(fetch, (c,), fetched)
                                &&& match fetched {
                                    Err(error) => rows == Err::<Vec<T>, ReadError<E>>(
                                        ReadError::Database(error),
                                    ),
                                    Ok(collector) => match collector.result() {
                                        Err(error) => rows == Err::<Vec<T>, ReadError<E>>(
                                            ReadError::Database(error),
                                        ),
                                        Ok(values) => rows matches Ok(v) && v@ == values,
                                    },
                                }
                            },
                    }
                },
    {
        match self.get_read_conn::<C, P, E, G>(readiness, get) {
            Err(error) => Err(error),
            Ok(conn) => match fetch(conn) {
                Err(error) => Err(ReadError::Database(error)),
                Ok(collector) => match collector.finish() {
                    Ok(values) => Ok(values),
                    Err(error) => Err(ReadError::Database(error)),
                },
            },
        }
    }

    /// Reads one row of a query: takes a connection as `get_read_conn` does and
    /// has `fetch` read the row on it.
    pub fn query_read_one<T, C, P, E, G, F>(&self, readiness: Readiness, get: G, fetch: F) -> (row: Result<
        T,
        ReadError<E>,
    >) where G: FnOnce() -> Result<C, P>, F: FnOnce(C) -> Result<T, E>
        requires
            readiness@.reads ==> call_requires(get, ()),
            readiness@.reads ==> forall|c: C|
                call_ensures(get, (), Ok::<C, P>(c)) ==> #[trigger] call_requires(fetch, (c,)),
        ensures
            !readiness@.reads ==> row == Err::<T, ReadError<E>>(ReadError::InvalidQuery),
            readiness@.reads ==> exists|got: Result<C, P>|
                {
                    &&& #[trigger] call_ensures(get, (), got)
                    &&& match got {
                        Err(_) => row == Err::<T, ReadError<E>>(ReadError::InvalidQuery),
                        Ok(c) => exists|fetched: Result<T, E>|
                            {
                                &&& #[trigger] call_ensures(fetch, (c,), fetched)
                                &&& row == (match fetched {
                                    Err(error) => Err::<T, ReadError<E>>(
                                        ReadError::Database(error),
                                    ),
                                    Ok(value) => Ok(value),
                                })
                            },
                    }
                },
    {
        match self.get_read_conn::<C, P, E, G>(readiness, get) {
            Err(error) => Err(error),
            Ok(conn) => match fetch(conn) {
                Err(error) => Err(ReadError::Database(error)),
                Ok(value) => Ok(value),
            },
        }
    }
}

} // verus!
