//! A header that is the same for every request of one target: it is
//! computed once, when the target is known, and then put on each request,
//! on each response, or on both.

use vstd::prelude::*;
use vstd::string::StringExecFns;
use crate::addr::SocketAddr;
use crate::http::Route;
use crate::serve::Accepted;
use crate::text::{is_header_text, is_header_value};

verus! {

/// Where the header goes.
#[derive(Copy, Clone, Debug, Default, Eq, PartialEq, Structural)]
pub struct Which {
    pub request: bool,
    pub response: bool,
}

/// Makes the header of each target with `extract`.
#[derive(Clone, Copy, Debug)]
pub struct NewHeaderFromTarget<X> {
    extract: X,
    which: Which,
}

/// The header of one target, and where it goes.
#[derive(Debug)]
pub struct HeaderFromTarget {
    name: String,
    value: String,
    which: Which,
}

/// What is left to do once the response is there: the header that goes on
/// it, if any.
#[derive(Debug)]
pub struct ResponseFuture {
    header: Option<(String, String)>,
}

/// The view of an optional header.
pub open spec fn opt_header(header: Option<(String, String)>) -> Option<(Seq<char>, Seq<char>)> {
    match header {
        Some(pair) => Some((pair.0@, pair.1@)),
        None => None,
    }
}

/// The value of the `forwarded` header for a client and a backend.
pub open spec fn forwarded_value(client: Seq<char>, name: Seq<char>) -> Seq<char> {
    "for="@ + client + ";host="@ + name
}

/// The `forwarded` header of a request from the client at `client` for
/// the backend `name`: it names both. `None` where the backend's name is
/// not fit for a header.
pub open spec fn forwarded_of(client: SocketAddr, name: Seq<char>) -> Option<
    (Seq<char>, Seq<char>),
> {
    let value = forwarded_value(client.text(), name);
    if is_header_text(value) {
        Some(("forwarded"@, value))
    } else {
        None
    }
}

/// The `forwarded` header of a route.
pub fn forwarded(route: &Route<Accepted>) -> (header: Option<(String, String)>)
    ensures
        opt_header(header) == forwarded_of(route.spec_parent().client_addr, route.spec_name()),
{
    let client = route.parent().client_addr.to_text();
    let value = String::from_str("for=").concat(client.as_str()).concat(";host=").concat(
        route.name().as_str(),
    );
    if is_header_value(value.as_str()) {
        Some((String::from_str("forwarded"), value))
    } else {
        None
    }
}

impl<X: Copy> NewHeaderFromTarget<X> {
    /// A maker of headers that go where `which` says.
    pub fn layer_via(which: Which, extract: X) -> (layer: Self)
        ensures
            layer.spec_which() == which,
            layer.spec_extract() == extract,
    {
        Self { which, extract }
    }

    /// Where the headers go.
    pub closed spec fn spec_which(self) -> Which {
        self.which
    }

    /// What makes the header of a target.
    pub closed spec fn spec_extract(self) -> X {
        self.extract
    }

    /// What makes the header of a target.
    pub fn extract(&self) -> (extract: X)
        ensures
            extract == self.spec_extract(),
    {
        self.extract
    }

    /// The header `name: value` of one target, to go where this maker's
    /// headers go.
    pub fn new_service(&self, name: String, value: String) -> (service: HeaderFromTarget)
        ensures
            service.spec_header() == (name@, value@),
            service.spec_which() == self.spec_which(),
    {
        HeaderFromTarget { which: self.which, name, value }
    }
}

impl HeaderFromTarget {
    /// The header.
    pub closed spec fn spec_header(&self) -> (Seq<char>, Seq<char>) {
        (self.name@, self.value@)
    }

    /// Where the header goes.
    pub closed spec fn spec_which(&self) -> Which {
        self.which
    }

    /// Handles one request: hands back the header to put on the request,
    /// if it goes there, and what is left to do for the response.
    pub fn call(&self) -> (todo: (Option<(String, String)>, ResponseFuture))
        ensures
            opt_header(todo.0) == (if self.spec_which().request {
                Some(self.spec_header())
            } else {
                None
            }),
            todo.1.spec_header() == (if self.spec_which().response {
                Some(self.spec_header())
            } else {
                None
            }),
    {
        let on_request = if self.which.request {
            Some((self.name.clone(), self.value.clone()))
        } else {
            None
        };
        let on_response = if self.which.response {
            Some((self.name.clone(), self.value.clone()))
        } else {
            None
        };
        (on_request, ResponseFuture { header: on_response })
    }
}

impl ResponseFuture {
    /// The header that goes on the response, if any.
    pub closed spec fn spec_header(&self) -> Option<(Seq<char>, Seq<char>)> {
        opt_header(self.header)
    }

    /// Handles the response: hands back the header to put on it, if any.
    /// A second call finds nothing left.
    pub fn poll(&mut self) -> (header: Option<(String, String)>)
        ensures
            opt_header(header) == old(self).spec_header(),
            final(self).spec_header().is_none(),
    {
        self.header.take()
    }
}

} // verus!
