//! What is known of an accepted connection.

use vstd::prelude::*;
use crate::addr::SocketAddr;

verus! {

/// An accepted connection: the address of the client at its other end.
#[derive(Clone, Copy, Debug, PartialEq, Eq, Structural)]
pub struct Accepted {
    pub client_addr: SocketAddr,
}

impl Accepted {
    /// The connection of the client at `client_addr`.
    pub fn new(client_addr: SocketAddr) -> (accepted: Accepted)
        ensures
            accepted.client_addr == client_addr,
    {
        Accepted { client_addr }
    }
}

} // verus!
