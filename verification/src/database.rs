//! The miner store's own state and the way it gathers the rows a query
//! returns.

use vstd::prelude::*;

verus! {

/// A store of miner records kept in the database file at `db_path`.
pub struct Database {
    db_path: String,
}

impl Database {
    /// The path of the database file.
    pub closed spec fn path(&self) -> Seq<char> {
        self.db_path@
    }

    /// A store kept in the database file at `db_path`.
    pub fn new(db_path: &str) -> (res: Database)
        ensures
            res.path() == db_path@,
    {
        Database { db_path: String::from_str(db_path) }
    }

    /// The path that each connection opens.
    pub fn db_path(&self) -> (res: &str)
        ensures
            res@ == self.path(),
    {
        self.db_path.as_str()
    }
}

/// Gathers the rows a query returns, in order; the first row that failed to
/// read fails the whole, with its error.
pub fn collect_rows<T, E>(rows: Vec<Result<T, E>>) -> (res: Result<Vec<T>, E>)
    ensures
        match res {
            Ok(v) => v@.len() == rows@.len() && forall|i: int|
                0 <= i < rows@.len() ==> #[trigger] rows@[i] == Ok::<T, E>(v@[i]),
            Err(e) => exists|i: int|
                0 <= i < rows@.len() && rows@[i] == Err::<T, E>(e) && forall|j: int|
                    0 <= j < i ==> #[trigger] rows@[j] is Ok,
        },
{
    let ghost all = rows@;
    let mut values: Vec<T> = Vec::new();
    for r in it: rows.into_iter()
        invariant
            it.seq() == all,
            values@.len() == it.index(),
            forall|j: int| 0 <= j < it.index() ==> #[trigger] all[j] == Ok::<T, E>(values@[j]),
    {
        match r {
            Ok(v) => {
                values.push(v);
            },
            Err(e) => {
                return Err(e);
            },
        }
    }
    Ok(values)
}

/// The answer to a lookup by key from the first row it returned: no row is no
/// record, a row that failed to read is its error.
pub fn first_row<T, E>(first: Option<Result<T, E>>) -> (res: Result<Option<T>, E>)
    ensures
        match first {
            None => res matches Ok(None),
            Some(Ok(v)) => res == Ok::<Option<T>, E>(Some(v)),
            Some(Err(e)) => res == Err::<Option<T>, E>(e),
        },
{
    match first {
        Some(row) => match row {
            Ok(v) => Ok(Some(v)),
            Err(e) => Err(e),
        },
        None => Ok(None),
    }
}

} // verus!
