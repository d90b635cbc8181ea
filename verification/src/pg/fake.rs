//! A database that does nothing and is content with everything.
use tokio_postgres::Error;
use vstd::prelude::*;

verus! {

/// Hands out connections to a database that does nothing.
pub struct FakePostgresConnectionManager<Tls> {
    pub tls: Tls,
}

impl<Tls> FakePostgresConnectionManager<Tls> {
    /// Takes any parameters.
    pub fn new_from_stringlike<T>(_params: T, tls: Tls) -> (r: Result<
        FakePostgresConnectionManager<Tls>,
        Error,
    >)
        ensures
            r matches Ok(manager) && manager.tls == tls,
    {
        Ok(FakePostgresConnectionManager { tls })
    }

    /// A connection.
    pub fn connect(&self) -> (r: Result<FakeClient, Error>)
        ensures
            r is Ok,
    {
        Ok(FakeClient)
    }
}

/// A connection to a database that does nothing.
#[derive(Clone, Copy, Debug, PartialEq, Eq, Structural)]
pub struct FakeClient;

impl FakeClient {
    /// No row is affected.
    pub fn execute(&self, _statement: &str, _data: &[u8]) -> (r: Result<u64, Error>)
        ensures
            r matches Ok(n) && n == 0,
    {
        Ok(0)
    }

    /// Every statement succeeds.
    pub fn batch_execute(&self, _query: &str) -> (r: Result<(), Error>)
        ensures
            r is Ok,
    {
        Ok(())
    }

    /// Every query finds a row.
    pub fn query_opt(&self, _statement: &str) -> (r: Result<Option<()>, Error>)
        ensures
            r matches Ok(Some(_)),
    {
        Ok(Some(()))
    }
}

} // verus!
