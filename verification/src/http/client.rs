//! Clients: one for each backend, to the address at which the backend
//! lives. While the address stays the same the client is used again; when
//! it changes, a client to the new address takes its place, and the old
//! one is left to finish what it has begun.

use vstd::prelude::*;
use crate::addr::SocketAddr;
use crate::discover::{Discovered, Receiver};

verus! {

/// Connects to one address, whatever a request's target says.
#[derive(Clone, Copy, Debug, PartialEq, Eq, Structural)]
pub struct Connect {
    pub addr: SocketAddr,
}

impl Connect {
    /// Where to connect for a request with the target `uri`: to this
    /// connector's address.
    pub fn call(&self, uri: &str) -> (addr: SocketAddr)
        ensures
            addr == self.addr,
    {
        self.addr
    }
}

/// Which client a request goes through.
#[derive(Clone, Copy, Debug, PartialEq, Eq, Structural)]
pub enum Client {
    /// The backend's client; it connects as `connect` says.
    Reuse { connect: Connect },
    /// A new client that connects as `connect` says. It takes the place of
    /// the backend's client to `retire`, where there was one.
    Open { connect: Connect, retire: Option<SocketAddr> },
}

/// Keeps, for each backend, the address of its client.
#[derive(Debug)]
pub struct NewClient {
    clients: Vec<Option<SocketAddr>>,
}

/// The client for a request to `target`, for a backend whose client, if it
/// has one, is to `current`.
pub open spec fn client_for(current: Option<SocketAddr>, target: SocketAddr) -> Client {
    if current == Some(target) {
        Client::Reuse { connect: Connect { addr: target } }
    } else {
        Client::Open { connect: Connect { addr: target }, retire: current }
    }
}

impl View for NewClient {
    type V = Seq<Option<SocketAddr>>;

    closed spec fn view(&self) -> Seq<Option<SocketAddr>> {
        self.clients@
    }
}

impl NewClient {
    /// For `backends` backends, none of which has a client yet.
    pub fn layer(backends: usize) -> (new_client: NewClient)
        ensures
            new_client@.len() == backends,
            forall|slot: int| 0 <= slot < backends ==> new_client@[slot].is_none(),
    {
        let mut clients: Vec<Option<SocketAddr>> = Vec::new();
        let mut i: usize = 0;
        while i < backends
            invariant
                i <= backends,
                clients@.len() == i,
                forall|slot: int| 0 <= slot < i ==> clients@[slot].is_none(),
            decreases backends - i,
        {
            clients.push(None);
            i += 1;
        }
        NewClient { clients }
    }

    /// The number of backends.
    pub fn len(&self) -> (n: usize)
        ensures
            n == self@.len(),
    {
        self.clients.len()
    }

    /// The client for a request to the backend behind `rx`, which lives at
    /// `target`: the backend's client where that is to the same address,
    /// else a new one, which is the backend's client from now on.
    pub fn new_service(&mut self, rx: &Receiver, target: &Discovered) -> (client: Client)
        requires
            rx.slot < old(self)@.len(),
        ensures
            client == client_for(old(self)@[rx.slot as int], target.addr),
            final(self)@ == old(self)@.update(rx.slot as int, Some(target.addr)),
    {
        let current = self.clients[rx.slot];
        let connect = Connect { addr: target.addr };
        let same = match current {
            Some(addr) => addr == target.addr,
            None => false,
        };
        if same {
            assert(self@ =~= self@.update(rx.slot as int, Some(target.addr)));
            Client::Reuse { connect }
        } else {
            self.clients[rx.slot] = Some(target.addr);
            Client::Open { connect, retire: current }
        }
    }
}

} // verus!
