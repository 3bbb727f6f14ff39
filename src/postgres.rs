//! The row-store backend handle: where its database is reached.
use vstd::prelude::*;

verus! {

#[verifier::external_type_specification]
#[verifier::external_body]
pub struct ExFailureError(failure::Error);

/// A connection address for a row-store database.
#[derive(Clone)]
pub struct Postgres {
    conn_url: String,
}

impl View for Postgres {
    type V = Seq<char>;

    /// The connection address.
    closed spec fn view(&self) -> Seq<char> {
        self.conn_url@
    }
}

impl Postgres {
    pub fn new(address: &str) -> (r: Postgres)
        ensures
            r@ == address@,
    {
        Postgres { conn_url: String::from_str(address) }
    }

    /// Builds the handle; this never fails.
    pub fn from_addr(address: &str) -> (r: Result<Self, failure::Error>)
        ensures
            r matches Ok(p) && p@ == address@,
    {
        Ok(Postgres::new(address))
    }

    pub fn conn_url(&self) -> (r: &str)
        ensures
            r@ == self@,
    {
        self.conn_url.as_str()
    }
}

} // verus!
