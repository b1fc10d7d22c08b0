//! Database operations: configuration, and the decisions each operation
//! takes on what the engine reports (a found or missing document, a deleted
//! or absent file, a batch that opens and closes around a callback).
use vstd::prelude::*;
use crate::error::{error_of, CBLError, CouchbaseLiteError, Error, ErrorCode, Result};

verus! {

/// Flag: create the database if it does not exist.
pub const CREATE: u32 = 1;

/// Flag: open the database read-only.
pub const READ_ONLY: u32 = 2;

/// Flag: do not upgrade an older database file format.
pub const NO_UPGRADE: u32 = 4;

/// Where a database lives and how it is opened.
#[derive(Clone, Copy, Debug)]
pub struct DatabaseConfiguration<'a> {
    pub directory: &'a str,
    pub flags: u32,
}

impl<'a> DatabaseConfiguration<'a> {
    /// Whether the configuration asks for the database to be created.
    pub fn creates(&self) -> (r: bool)
        ensures
            r == (self.flags & CREATE != 0),
    {
        self.flags & CREATE != 0
    }

    /// Whether the configuration opens the database read-only.
    pub fn read_only(&self) -> (r: bool)
        ensures
            r == (self.flags & READ_ONLY != 0),
    {
        self.flags & READ_ONLY != 0
    }
}

/// The error for a document that is not in the database.
pub open spec fn not_found_error() -> Error {
    Error { code: ErrorCode::CouchbaseLite(CouchbaseLiteError::NotFound), internal_info: None }
}

/// A looked-up document, or the not-found error when the lookup found none.
pub fn found_document<T>(doc: Option<T>) -> (r: Result<T>)
    ensures
        match doc {
            Some(d) => r matches Ok(x) && x == d,
            None => r matches Err(e) && e == not_found_error(),
        },
{
    match doc {
        Some(d) => Ok(d),
        None => Err(Error::cbl_error(CouchbaseLiteError::NotFound)),
    }
}

/// The outcome of deleting a database file: `Ok(true)` when it was deleted,
/// `Ok(false)` when there was none (no error set), else the error that the
/// record reports.
pub fn delete_file_result(deleted: bool, err: &CBLError) -> (r: Result<bool>)
    ensures
        deleted ==> r == Ok::<bool, Error>(true),
        !deleted && err.code == 0 ==> r == Ok::<bool, Error>(false),
        !deleted && err.code != 0 ==> (r matches Err(e) && e == error_of(*err)),
{
    if deleted {
        Ok(true)
    } else if err.is_empty() {
        Ok(false)
    } else {
        Err(Error::new(err))
    }
}

/// Runs `callback` inside a batch: `begin` opens the batch and `end` closes
/// it, each reporting success as a flag with an error record that a failure
/// sets. When the batch cannot be opened the callback does not run and the
/// error comes back; otherwise the callback's result comes back once the
/// batch has closed, or the error of closing it. Batches nest: only the
/// outermost close commits, which the engine decides.
pub fn in_batch<T, B, F, E>(begin: B, callback: F, end: E) -> (r: Result<T>)
    where
        B: FnOnce() -> (bool, CBLError),
        F: FnOnce() -> T,
        E: FnOnce() -> (bool, CBLError),
    requires
        begin.requires(()),
        callback.requires(()),
        end.requires(()),
        forall|o: (bool, CBLError)| begin.ensures((), o) ==> o.0 || o.1.code != 0,
        forall|o: (bool, CBLError)| end.ensures((), o) ==> o.0 || o.1.code != 0,
    ensures
        exists|b: (bool, CBLError)|
            #![trigger begin.ensures((), b)]
            {
                &&& begin.ensures((), b)
                &&& !b.0 ==> (r matches Err(e) && e == error_of(b.1))
                &&& b.0 ==> exists|v: T, c: (bool, CBLError)|
                    #![trigger callback.ensures((), v), end.ensures((), c)]
                    {
                        &&& callback.ensures((), v)
                        &&& end.ensures((), c)
                        &&& c.0 ==> (r matches Ok(x) && x == v)
                        &&& !c.0 ==> (r matches Err(e) && e == error_of(c.1))
                    }
            },
{
    let (began, err) = begin();
    if !began {
        return Err(Error::new(&err));
    }
    let result = callback();
    let (ended, err2) = end();
    if !ended {
        return Err(Error::new(&err2));
    }
    Ok(result)
}

} // verus!
