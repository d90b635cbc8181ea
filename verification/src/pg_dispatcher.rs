//! Where tuples are dispatched to the local database.
use crate::text;
use vstd::prelude::*;

verus! {

/// Dispatches tuples to the database at an address.
#[derive(Debug, PartialEq)]
pub struct PgDispatcher {
    /// A host and a port, with a colon between them.
    pub addr: String,
}

/// How to connect to the database with the given host and port.
pub open spec fn connection(host: Seq<char>, port: Seq<char>) -> Seq<char> {
    "host="@ + host + " port="@ + port + " user=postgres application_name=#remotexact"@
}

impl PgDispatcher {
    pub fn new(addr: &str) -> (dispatcher: PgDispatcher)
        ensures
            dispatcher.addr@ == addr@,
    {
        PgDispatcher { addr: addr.to_owned() }
    }

    /// How to connect to the database: the host is what stands before the first colon of the
    /// address, the port what stands between that and the next, if there is one.
    pub fn conn_str(&self) -> (s: String)
        requires
            text::parts(self.addr@, ':').len() >= 2,
        ensures
            s@ == connection(
                text::parts(self.addr@, ':')[0],
                text::parts(self.addr@, ':')[1],
            ),
    {
        let ip_port = text::split(self.addr.as_str(), ':');
        let ghost parts = ip_port@.map_values(|part: String| part@);
        assert(parts[0] == ip_port@[0]@ && parts[1] == ip_port@[1]@);
        let mut out = "host=".to_owned();
        out.append(ip_port[0].as_str());
        out.append(" port=");
        out.append(ip_port[1].as_str());
        out.append(" user=postgres application_name=#remotexact");
        out
    }
}

} // verus!
