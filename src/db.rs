//! Connection settings of the session pool.

use vstd::prelude::*;

verus! {

/// Opens sessions to one store node; the pool asks it for new sessions and
/// for liveness checks.
pub struct ScyllaConnectionManager {
    connection_string: String,
}

impl ScyllaConnectionManager {
    /// A manager for the node at `connection_string` (`host:port`).
    pub fn new(connection_string: String) -> (r: Self)
        ensures
            r.connection_string() == connection_string@,
    {
        ScyllaConnectionManager { connection_string }
    }

    pub closed spec fn connection_string(&self) -> Seq<char> {
        self.connection_string@
    }

    /// The node address this manager connects to.
    pub fn node(&self) -> (r: &str)
        ensures
            r@ == self.connection_string(),
    {
        self.connection_string.as_str()
    }
}

} // verus!
