//! What the gateway reads of a request and writes of a response.

use vstd::prelude::*;
use crate::addr::SocketAddr;
use crate::discover::Name;
use crate::error::{DispatchError, Error, ErrorView};
use crate::http::error_respond::{
    law_close_header, ContentType, EmitHeaders, HttpRescue, SyntheticHttpResponse, SyntheticView,
};
use crate::text::{ascii_lowered, eq_ignore_ascii_case, opt_text};
use vstd::string::StringExecFns;

pub mod client;
pub mod error_respond;
pub mod header_from_target;

verus! {

/// The protocol version of a request or response.
#[derive(Clone, Copy, Debug, PartialEq, Eq, Structural)]
pub enum Version {
    Http09,
    Http10,
    Http11,
    H2,
    H3,
}

/// The head of a request, as far as the gateway reads it.
#[derive(Clone, Debug)]
pub struct RequestHead {
    /// The protocol version.
    pub version: Version,
    /// The request target as it was sent.
    pub uri: String,
    /// The authority of the request target, where it has one.
    pub authority: Option<String>,
    /// The path of the request target, without the query.
    pub path: Option<String>,
    /// The value of the `Host` header.
    pub host: Option<String>,
    /// The value of the `Accept` header.
    pub accept: Option<String>,
    /// The value of the `Content-Type` header.
    pub content_type: Option<String>,
    /// The address of the client that sent the request, where it is known.
    pub client: Option<SocketAddr>,
}

/// A request head as a value of mathematics.
pub struct RequestView {
    pub version: Version,
    pub uri: Seq<char>,
    pub authority: Option<Seq<char>>,
    pub path: Option<Seq<char>>,
    pub host: Option<Seq<char>>,
    pub accept: Option<Seq<char>>,
    pub content_type: Option<Seq<char>>,
    pub client: Option<SocketAddr>,
}

impl View for RequestHead {
    type V = RequestView;

    open spec fn view(&self) -> RequestView {
        RequestView {
            version: self.version,
            uri: self.uri@,
            authority: opt_text(self.authority),
            path: opt_text(self.path),
            host: opt_text(self.host),
            accept: opt_text(self.accept),
            content_type: opt_text(self.content_type),
            client: self.client,
        }
    }
}

/// The authority and the path of the request target `uri` as the `http`
/// crate parses it, each where the target has one; `None` where the text
/// is no request target.
pub uninterp spec fn uri_parts(uri: Seq<char>) -> Option<(Option<Seq<char>>, Option<Seq<char>>)>;

/// The views of the parts of a request target.
pub open spec fn parts_view(parts: Option<(Option<String>, Option<String>)>) -> Option<
    (Option<Seq<char>>, Option<Seq<char>>),
> {
    match parts {
        Some((authority, path)) => Some((opt_text(authority), opt_text(path))),
        None => None,
    }
}

/// Calls `http::Uri::from_str` and, on what it parsed, `Uri::authority`
/// and `Uri::path_and_query` with `PathAndQuery::path`: the authority as
/// text and the path without the query. How a target is taken apart is
/// left to that crate.
#[verifier::external_body]
fn parse_uri(uri: &str) -> (parts: Option<(Option<String>, Option<String>)>)
    ensures
        parts_view(parts) == uri_parts(uri@),
{
    match uri.parse::<::http::Uri>() {
        Ok(parsed) => {
            let authority = match parsed.authority() {
                Some(authority) => Some(authority.as_str().to_string()),
                None => None,
            };
            let path = match parsed.path_and_query() {
                Some(target) => Some(target.path().to_string()),
                None => None,
            };
            Some((authority, path))
        },
        Err(_) => None,
    }
}

/// Whether `name` is the header name `header`, whatever the case of its
/// letters.
pub open spec fn is_header_name(name: Seq<char>, header: Seq<char>) -> bool {
    ascii_lowered(name) == ascii_lowered(header)
}

impl RequestView {
    /// The head with one more header: the first `host`, `accept` and
    /// `content-type` header are kept, every other header is passed over.
    /// Capitals in the name do not count.
    pub open spec fn with_header(self, name: Seq<char>, value: Seq<char>) -> RequestView {
        if is_header_name(name, "host"@) && self.host.is_none() {
            RequestView { host: Some(value), ..self }
        } else if is_header_name(name, "accept"@) && self.accept.is_none() {
            RequestView { accept: Some(value), ..self }
        } else if is_header_name(name, "content-type"@) && self.content_type.is_none() {
            RequestView { content_type: Some(value), ..self }
        } else {
            self
        }
    }
}

impl RequestHead {
    /// The head of a request for the target `uri`, whose authority and
    /// path are given, without headers and from an unknown client.
    pub fn from_parts(
        version: Version,
        uri: &str,
        authority: Option<String>,
        path: Option<String>,
    ) -> (head: RequestHead)
        ensures
            head@ == (RequestView {
                version,
                uri: uri@,
                authority: opt_text(authority),
                path: opt_text(path),
                host: None,
                accept: None,
                content_type: None,
                client: None,
            }),
    {
        RequestHead {
            version,
            uri: String::from_str(uri),
            authority,
            path,
            host: None,
            accept: None,
            content_type: None,
            client: None,
        }
    }

    /// The head of a request for the target `uri`, without headers and
    /// from an unknown client; `None` where `uri` is no request target.
    pub fn new(version: Version, uri: &str) -> (head: Option<RequestHead>)
        ensures
            match uri_parts(uri@) {
                Some((authority, path)) => head.is_some() && head.unwrap()@ == (RequestView {
                    version,
                    uri: uri@,
                    authority,
                    path,
                    host: None,
                    accept: None,
                    content_type: None,
                    client: None,
                }),
                None => head.is_none(),
            },
    {
        match parse_uri(uri) {
            Some((authority, path)) => Some(Self::from_parts(version, uri, authority, path)),
            None => None,
        }
    }

    /// The head with one more header.
    pub fn header(self, name: &str, value: &str) -> (head: RequestHead)
        ensures
            head@ == self@.with_header(name@, value@),
    {
        let mut head = self;
        if eq_ignore_ascii_case(name, "host") && head.host.is_none() {
            head.host = Some(String::from_str(value));
        } else if eq_ignore_ascii_case(name, "accept") && head.accept.is_none() {
            head.accept = Some(String::from_str(value));
        } else if eq_ignore_ascii_case(name, "content-type") && head.content_type.is_none() {
            head.content_type = Some(String::from_str(value));
        }
        head
    }

    /// The head of the same request, sent by the client at `client`.
    pub fn from_client(self, client: SocketAddr) -> (head: RequestHead)
        ensures
            head@ == (RequestView { client: Some(client), ..self@ }),
    {
        let mut head = self;
        head.client = Some(client);
        head
    }
}

/// A status code: a number from 100 to 999.
#[derive(Clone, Copy, Debug, PartialEq, Eq, Structural, Hash)]
pub struct StatusCode {
    code: u16,
}

impl StatusCode {
    /// The number of the status code.
    pub closed spec fn code(self) -> u16 {
        self.code
    }

    #[verifier::type_invariant]
    spec fn in_range(self) -> bool {
        100 <= self.code <= 999
    }

    /// The status code with the number `src`, where that is from 100 to 999.
    pub fn from_u16(src: u16) -> (status: Option<StatusCode>)
        ensures
            status.is_some() <==> 100 <= src <= 999,
            status matches Some(s) ==> s.code() == src,
    {
        if 100 <= src && src <= 999 {
            Some(StatusCode { code: src })
        } else {
            None
        }
    }

    /// The number of the status code.
    pub fn as_u16(&self) -> (code: u16)
        ensures
            code == self.code(),
            100 <= code <= 999,
    {
        proof {
            use_type_invariant(self);
        }
        self.code
    }

    /// 403 Forbidden.
    pub fn forbidden() -> (status: StatusCode)
        ensures
            status.code() == 403,
    {
        StatusCode { code: 403 }
    }

    /// 404 Not Found.
    pub fn not_found() -> (status: StatusCode)
        ensures
            status.code() == 404,
    {
        StatusCode { code: 404 }
    }

    /// 500 Internal Server Error.
    pub fn internal_server_error() -> (status: StatusCode)
        ensures
            status.code() == 500,
    {
        StatusCode { code: 500 }
    }

    /// 502 Bad Gateway.
    pub fn bad_gateway() -> (status: StatusCode)
        ensures
            status.code() == 502,
    {
        StatusCode { code: 502 }
    }

    /// 503 Service Unavailable.
    pub fn service_unavailable() -> (status: StatusCode)
        ensures
            status.code() == 503,
    {
        StatusCode { code: 503 }
    }

    /// 504 Gateway Timeout.
    pub fn gateway_timeout() -> (status: StatusCode)
        ensures
            status.code() == 504,
    {
        StatusCode { code: 504 }
    }

    /// 508 Loop Detected.
    pub fn loop_detected() -> (status: StatusCode)
        ensures
            status.code() == 508,
    {
        StatusCode { code: 508 }
    }
}

/// A response whose body is text.
#[derive(Clone, Debug)]
pub struct Response {
    /// The status.
    pub status: StatusCode,
    /// The protocol version.
    pub version: Version,
    /// The headers in order, each a lower-case name and a value.
    pub headers: Vec<(String, String)>,
    /// The body.
    pub body: String,
}

/// A response as a value of mathematics.
pub struct ResponseView {
    pub status: u16,
    pub version: Version,
    pub headers: Seq<(Seq<char>, Seq<char>)>,
    pub body: Seq<char>,
}

/// The headers of a response as a value of mathematics.
pub open spec fn headers_view(headers: Seq<(String, String)>) -> Seq<(Seq<char>, Seq<char>)> {
    Seq::new(headers.len(), |i: int| (headers[i].0@, headers[i].1@))
}

impl View for Response {
    type V = ResponseView;

    open spec fn view(&self) -> ResponseView {
        ResponseView {
            status: self.status.code(),
            version: self.version,
            headers: headers_view(self.headers@),
            body: self.body@,
        }
    }
}

impl ResponseView {
    /// Whether the response has a header of the given name and value.
    pub open spec fn has_header(self, name: Seq<char>, value: Seq<char>) -> bool {
        exists|i: int| 0 <= i < self.headers.len() && #[trigger] self.headers[i] == (name, value)
    }

    /// Whether the response has a header of the given name.
    pub open spec fn has_header_named(self, name: Seq<char>) -> bool {
        exists|i: int| 0 <= i < self.headers.len() && (#[trigger] self.headers[i]).0 == name
    }
}

/// The gateway's strategy for answering errors.
#[derive(Clone, Copy, Debug)]
pub struct ServerRescue;

impl ServerRescue {
    /// The strategy itself: it is the same for every connection.
    pub fn extract_param(&self) -> (rescue: ServerRescue)
        ensures
            rescue == *self,
    {
        *self
    }

    /// Made-up responses carry headers that describe the error.
    pub fn emit_headers(&self) -> (emit: EmitHeaders)
        ensures
            emit.0,
    {
        EmitHeaders(true)
    }
}

impl HttpRescue for ServerRescue {
    /// An admission timeout becomes 504, a full queue 503, a backend
    /// without a live address 503, a refused connection or a backend that
    /// did not answer 503, a reset connection 502, an unknown backend or a
    /// request without a route 404, anything unexpected 500. Each carries
    /// the error's message, but 500, which says `unexpected error`. All but
    /// 404 close the connection. A broken protocol is let pass.
    open spec fn rescued(&self, error: ErrorView) -> Option<SyntheticView> {
        match error {
            ErrorView::FailFast => Some(
                SyntheticView {
                    http_status: 504,
                    close_connection: true,
                    message: error.message(),
                    location: None,
                },
            ),
            ErrorView::Overloaded | ErrorView::NotResolved | ErrorView::Dispatch(
                DispatchError::Refused,
            ) | ErrorView::Dispatch(DispatchError::TimedOut) => Some(
                SyntheticView {
                    http_status: 503,
                    close_connection: true,
                    message: error.message(),
                    location: None,
                },
            ),
            ErrorView::Dispatch(DispatchError::Reset) => Some(
                SyntheticView {
                    http_status: 502,
                    close_connection: true,
                    message: error.message(),
                    location: None,
                },
            ),
            ErrorView::NoRoute(_) | ErrorView::NotConfigured(_) => Some(
                SyntheticView {
                    http_status: 404,
                    close_connection: false,
                    message: error.message(),
                    location: None,
                },
            ),
            ErrorView::Protocol => None,
            ErrorView::Unexpected(_) => Some(
                SyntheticView {
                    http_status: 500,
                    close_connection: true,
                    message: "unexpected error"@,
                    location: None,
                },
            ),
        }
    }

    fn rescue(&self, error: Error) -> (made: Result<SyntheticHttpResponse, Error>) {
        match &error {
            Error::FailFast => Ok(SyntheticHttpResponse::gateway_timeout(error.message().as_str())),
            Error::Overloaded | Error::NotResolved(_) | Error::Dispatch(DispatchError::Refused)
            | Error::Dispatch(DispatchError::TimedOut) => Ok(
                SyntheticHttpResponse::unavailable(error.message().as_str()),
            ),
            Error::Dispatch(DispatchError::Reset) => Ok(
                SyntheticHttpResponse::bad_gateway(error.message().as_str()),
            ),
            Error::NoRoute(_) | Error::NotConfigured(_) => Ok(
                SyntheticHttpResponse::not_found(error.message().as_str()),
            ),
            Error::Protocol => Err(error),
            Error::Unexpected(_) => Ok(SyntheticHttpResponse::unexpected_error()),
        }
    }
}

/// An admission timeout on an HTTP/1.1 request is answered with 504 and
/// `connection: close`, in every representation.
pub proof fn law_fail_fast_is_504_and_closes(content_type: ContentType)
    ensures
        ServerRescue.rescued(ErrorView::FailFast).is_some(),
        ({
            let rsp = ServerRescue.rescued(ErrorView::FailFast).unwrap().http_response(
                Version::Http11,
                content_type,
            );
            rsp.status == 504 && rsp.has_header("connection"@, "close"@)
        }),
{
    law_close_header(
        ServerRescue.rescued(ErrorView::FailFast).unwrap(),
        Version::Http11,
        content_type,
    );
}

/// A request without a route is answered with 404 and no `connection`
/// header, in every version and representation.
pub proof fn law_no_route_is_404_and_stays_open(
    uri: Seq<char>,
    version: Version,
    content_type: ContentType,
)
    ensures
        ServerRescue.rescued(ErrorView::NoRoute(uri)).is_some(),
        ({
            let rsp = ServerRescue.rescued(ErrorView::NoRoute(uri)).unwrap().http_response(
                version,
                content_type,
            );
            rsp.status == 404 && !rsp.has_header_named("connection"@)
        }),
{
    law_close_header(ServerRescue.rescued(ErrorView::NoRoute(uri)).unwrap(), version, content_type);
}

/// A target that has been routed: what it was before, and the backend
/// that it is for.
#[derive(Debug, Clone, PartialEq, Eq)]
pub struct Route<T> {
    parent: T,
    name: Name,
}

impl<T> Route<T> {
    /// The backend as a value of mathematics.
    pub closed spec fn spec_name(self) -> Seq<char> {
        self.name@
    }

    /// What the target was before it was routed.
    pub closed spec fn spec_parent(self) -> T {
        self.parent
    }

    /// The target `parent`, routed to the backend `name`.
    pub fn from(routed: (Name, T)) -> (route: Self)
        ensures
            route.spec_name() == routed.0@,
            route.spec_parent() == routed.1,
    {
        Self { name: routed.0, parent: routed.1 }
    }

    /// The backend that the target is for.
    pub fn param(&self) -> (name: Name)
        ensures
            name@ == self.spec_name(),
    {
        self.name.clone()
    }

    /// The backend that the target is for.
    pub fn name(&self) -> (name: &Name)
        ensures
            name@ == self.spec_name(),
    {
        &self.name
    }

    /// What the target was before it was routed.
    pub fn parent(&self) -> (parent: &T)
        ensures
            *parent == self.spec_parent(),
    {
        &self.parent
    }
}

} // verus!
