//! Responses that the gateway makes up itself when a request fails.

use vstd::prelude::*;
use vstd::string::StringExecFns;
use crate::addr::{IpAddr, SocketAddr};
use crate::error::{Error, ErrorView};
use crate::http::{headers_view, RequestHead, Response, ResponseView, StatusCode, Version};
use crate::text::{contains, decimal, decimal_string, is_header_text, is_infix, opt_text, starts_with};

verus! {

/// The canonical reason phrase of the status code `code` in the `http`
/// crate; `None` where the crate has none for that number.
pub uninterp spec fn canonical_reason_of(code: u16) -> Option<Seq<char>>;

/// Calls `http::StatusCode::from_u16` and `StatusCode::canonical_reason`:
/// the reason phrase that the crate holds for the number, `None` where it
/// holds none or takes the number for no status code. Which phrase belongs
/// to which number is left to that crate.
#[verifier::external_body]
fn canonical_reason(code: u16) -> (reason: Option<&'static str>)
    ensures
        opt_str(reason) == canonical_reason_of(code),
{
    match ::http::StatusCode::from_u16(code) {
        Ok(status) => status.canonical_reason(),
        Err(_) => None,
    }
}

/// What the gateway calls itself in the `Server` header and in its pages.
pub open spec fn server_name() -> Seq<char> {
    "multipass/0.1.0"@
}

/// What the gateway calls itself in the `Server` header and in its pages.
pub fn server_name_text() -> (name: &'static str)
    ensures
        name@ == server_name(),
{
    "multipass/0.1.0"
}

/// A status as it is shown to people: the number, a space and the reason
/// phrase, or `<unknown status code>` where there is no phrase.
pub open spec fn status_with_reason(code: u16, reason: Option<Seq<char>>) -> Seq<char> {
    decimal(code as nat) + " "@ + match reason {
        Some(reason) => reason,
        None => "<unknown status code>"@,
    }
}

/// A status as it is shown to people, with the reason phrase that the
/// `http` crate holds for its number.
pub open spec fn status_text(code: u16) -> Seq<char> {
    status_with_reason(code, canonical_reason_of(code))
}

/// The view of an optional text.
pub open spec fn opt_str(text: Option<&str>) -> Option<Seq<char>> {
    match text {
        Some(text) => Some(text@),
        None => None,
    }
}

/// A status as it is shown to people, given its reason phrase.
pub fn render_status(code: u16, reason: Option<&str>) -> (text: String)
    ensures
        text@ == status_with_reason(code, opt_str(reason)),
{
    let mut text = decimal_string(code as u64);
    text.append(" ");
    match reason {
        Some(reason) => {
            text.append(reason);
        },
        None => {
            text.append("<unknown status code>");
        },
    }
    text
}

/// A status as it is shown to people.
pub fn status_to_text(status: StatusCode) -> (text: String)
    ensures
        text@ == status_text(status.code()),
{
    let code = status.as_u16();
    render_status(code, canonical_reason(code))
}

/// The representation of a made-up response's body.
#[derive(Clone, Copy, Debug, PartialEq, Eq, Structural)]
pub enum ContentType {
    Html,
    Plaintext,
    Json,
}

impl ContentType {
    /// The media type of HTML.
    pub open spec fn html() -> Seq<char> {
        "text/html"@
    }

    /// The media type of plain text.
    pub open spec fn plaintext() -> Seq<char> {
        "text/plain"@
    }

    /// The media type of JSON.
    pub open spec fn json() -> Seq<char> {
        "application/json"@
    }

    /// The media type of gRPC.
    pub open spec fn grpc() -> Seq<char> {
        "application/grpc"@
    }

    /// The media type that stands in the `Content-Type` header.
    pub open spec fn mime(self) -> Seq<char> {
        match self {
            ContentType::Html => Self::html(),
            ContentType::Plaintext => Self::plaintext(),
            ContentType::Json => Self::json(),
        }
    }

    /// The media type that stands in the `Content-Type` header.
    pub fn mime_text(self) -> (mime: &'static str)
        ensures
            mime@ == self.mime(),
    {
        match self {
            ContentType::Html => "text/html",
            ContentType::Plaintext => "text/plain",
            ContentType::Json => "application/json",
        }
    }

    /// The representation that an `Accept` header asks for: JSON where it
    /// names `application/json`, else HTML where it names `text/html`, else
    /// plain text where it names `text/plain`; HTML where the header is
    /// absent or names none of them.
    pub open spec fn negotiated(accept: Option<Seq<char>>) -> ContentType {
        match accept {
            Some(s) => if is_infix(s, Self::json()) {
                ContentType::Json
            } else if is_infix(s, Self::html()) {
                ContentType::Html
            } else if is_infix(s, Self::plaintext()) {
                ContentType::Plaintext
            } else {
                ContentType::Html
            },
            None => ContentType::Html,
        }
    }

    /// The representation that an `Accept` header asks for.
    pub fn negotiate(accept: &Option<String>) -> (chosen: ContentType)
        ensures
            chosen == Self::negotiated(opt_text(*accept)),
    {
        match accept {
            Some(s) => {
                if contains(s.as_str(), "application/json") {
                    ContentType::Json
                } else if contains(s.as_str(), "text/html") {
                    ContentType::Html
                } else if contains(s.as_str(), "text/plain") {
                    ContentType::Plaintext
                } else {
                    ContentType::Html
                }
            },
            None => ContentType::Html,
        }
    }
}

/// A response that the gateway makes up in place of a backend's.
#[derive(Clone, Debug)]
pub struct SyntheticHttpResponse {
    http_status: StatusCode,
    close_connection: bool,
    message: String,
    location: Option<String>,
}

/// A made-up response as a value of mathematics.
pub struct SyntheticView {
    pub http_status: u16,
    pub close_connection: bool,
    pub message: Seq<char>,
    pub location: Option<Seq<char>>,
}

impl View for SyntheticHttpResponse {
    type V = SyntheticView;

    closed spec fn view(&self) -> SyntheticView {
        SyntheticView {
            http_status: self.http_status.code(),
            close_connection: self.close_connection,
            message: self.message@,
            location: opt_text(self.location),
        }
    }
}

/// The page up to the status in its title.
pub const PAGE_OPEN: &'static str =
    "<!DOCTYLE html>\n<html>\n    <head>\n        <meta charset=\"utf-8\">\n        <meta name=\"viewport\" content=\"width=device-width, initial-scale=1\">\n        <title>";

/// The page between the status in its title and the status in its heading.
pub const PAGE_HEADING: &'static str = "</title>\n    </head>\n    <body>\n        <h1>";

/// The page between the status in its heading and the message.
pub const PAGE_MESSAGE: &'static str = "</h1>\n        <p>";

/// The page between the message and the gateway's name.
pub const PAGE_SERVER: &'static str = "</p>\n        <p><em>";

/// The page behind the gateway's name.
pub const PAGE_CLOSE: &'static str = "</em></p>\n    </body>\n</html>";

/// The page that shows a status and a message to a person.
pub open spec fn html_page(status: Seq<char>, message: Seq<char>) -> Seq<char> {
    PAGE_OPEN@ + status + PAGE_HEADING@ + status + PAGE_MESSAGE@ + message + PAGE_SERVER@
        + server_name() + PAGE_CLOSE@
}

/// The JSON object that holds a status number and a message.
pub open spec fn json_object(code: u16, message: Seq<char>) -> Seq<char> {
    "{\"status\":"@ + decimal(code as nat) + ", \"message\": \""@ + message + "\"}"@
}

impl SyntheticView {
    /// The headers of the response: `server`; `connection: close` where the
    /// connection must close and the version is HTTP/1.1; `location` where
    /// there is one; `content-type`.
    pub open spec fn headers(self, version: Version, content_type: ContentType) -> Seq<
        (Seq<char>, Seq<char>),
    > {
        seq![("server"@, server_name())] + (if self.close_connection && version == Version::Http11 {
            seq![("connection"@, "close"@)]
        } else {
            seq![]
        }) + (match self.location {
            Some(location) => seq![("location"@, location)],
            None => seq![],
        }) + seq![("content-type"@, content_type.mime())]
    }

    /// The body of the response in the given representation.
    pub open spec fn body(self, content_type: ContentType) -> Seq<char> {
        match content_type {
            ContentType::Plaintext => self.message,
            ContentType::Html => html_page(status_text(self.http_status), self.message),
            ContentType::Json => json_object(self.http_status, self.message),
        }
    }

    /// The whole response.
    pub open spec fn http_response(self, version: Version, content_type: ContentType) -> ResponseView {
        ResponseView {
            status: self.http_status,
            version,
            headers: self.headers(version, content_type),
            body: self.body(content_type),
        }
    }
}

/// One header as a pair of owned texts.
fn header(name: &str, value: &str) -> (pair: (String, String))
    ensures
        pair.0@ == name@,
        pair.1@ == value@,
{
    (String::from_str(name), String::from_str(value))
}

impl SyntheticHttpResponse {
    /// 500 with the message `unexpected error`; the connection closes.
    pub fn unexpected_error() -> (rsp: Self)
        ensures
            rsp@ == (SyntheticView {
                http_status: 500,
                close_connection: true,
                message: "unexpected error"@,
                location: None,
            }),
    {
        Self::internal_error("unexpected error")
    }

    /// 500 with the given message; the connection closes.
    pub fn internal_error(msg: &str) -> (rsp: Self)
        ensures
            rsp@ == (SyntheticView {
                http_status: 500,
                close_connection: true,
                message: msg@,
                location: None,
            }),
    {
        Self {
            close_connection: true,
            http_status: StatusCode::internal_server_error(),
            message: String::from_str(msg),
            location: None,
        }
    }

    /// 502 with the given message; the connection closes.
    pub fn bad_gateway(msg: &str) -> (rsp: Self)
        ensures
            rsp@ == (SyntheticView {
                http_status: 502,
                close_connection: true,
                message: msg@,
                location: None,
            }),
    {
        Self {
            close_connection: true,
            http_status: StatusCode::bad_gateway(),
            message: String::from_str(msg),
            location: None,
        }
    }

    /// 504 with the given message; the connection closes.
    pub fn gateway_timeout(msg: &str) -> (rsp: Self)
        ensures
            rsp@ == (SyntheticView {
                http_status: 504,
                close_connection: true,
                message: msg@,
                location: None,
            }),
    {
        Self {
            close_connection: true,
            http_status: StatusCode::gateway_timeout(),
            message: String::from_str(msg),
            location: None,
        }
    }

    /// 503 with the given message; the connection closes.
    pub fn unavailable(msg: &str) -> (rsp: Self)
        ensures
            rsp@ == (SyntheticView {
                http_status: 503,
                close_connection: true,
                message: msg@,
                location: None,
            }),
    {
        Self {
            close_connection: true,
            http_status: StatusCode::service_unavailable(),
            message: String::from_str(msg),
            location: None,
        }
    }

    /// 403 with the given message; the connection stays open.
    pub fn unauthenticated(msg: &str) -> (rsp: Self)
        ensures
            rsp@ == (SyntheticView {
                http_status: 403,
                close_connection: false,
                message: msg@,
                location: None,
            }),
    {
        Self {
            http_status: StatusCode::forbidden(),
            close_connection: false,
            message: String::from_str(msg),
            location: None,
        }
    }

    /// 403 with the given message; the connection stays open.
    pub fn permission_denied(msg: &str) -> (rsp: Self)
        ensures
            rsp@ == (SyntheticView {
                http_status: 403,
                close_connection: false,
                message: msg@,
                location: None,
            }),
    {
        Self {
            http_status: StatusCode::forbidden(),
            close_connection: false,
            message: String::from_str(msg),
            location: None,
        }
    }

    /// 508 with the given message; the connection closes.
    pub fn loop_detected(msg: &str) -> (rsp: Self)
        ensures
            rsp@ == (SyntheticView {
                http_status: 508,
                close_connection: true,
                message: msg@,
                location: None,
            }),
    {
        Self {
            http_status: StatusCode::loop_detected(),
            close_connection: true,
            message: String::from_str(msg),
            location: None,
        }
    }

    /// 404 with the given message; the connection stays open.
    pub fn not_found(msg: &str) -> (rsp: Self)
        ensures
            rsp@ == (SyntheticView {
                http_status: 404,
                close_connection: false,
                message: msg@,
                location: None,
            }),
    {
        Self {
            http_status: StatusCode::not_found(),
            close_connection: false,
            message: String::from_str(msg),
            location: None,
        }
    }

    /// The given status with the message `redirected` and a `location`
    /// header that holds `location`, which must be fit for a header; the
    /// connection stays open.
    pub fn redirect(http_status: StatusCode, location: &str) -> (rsp: Self)
        requires
            is_header_text(location@),
        ensures
            rsp@ == (SyntheticView {
                http_status: http_status.code(),
                close_connection: false,
                message: "redirected"@,
                location: Some(location@),
            }),
    {
        Self {
            http_status,
            close_connection: false,
            message: String::from_str("redirected"),
            location: Some(String::from_str(location)),
        }
    }

    /// The given status with the given message; the connection stays open.
    pub fn response(http_status: StatusCode, message: &str) -> (rsp: Self)
        ensures
            rsp@ == (SyntheticView {
                http_status: http_status.code(),
                close_connection: false,
                message: message@,
                location: None,
            }),
    {
        Self {
            http_status,
            location: None,
            close_connection: false,
            message: String::from_str(message),
        }
    }

    /// Whether the client's connection must close after this response.
    pub fn close_connection(&self) -> (close: bool)
        ensures
            close == self@.close_connection,
    {
        self.close_connection
    }

    /// The status of the response.
    pub fn http_status(&self) -> (status: StatusCode)
        ensures
            status.code() == self@.http_status,
    {
        self.http_status
    }

    /// The body in the given representation.
    fn body(&self, content_type: ContentType) -> (body: String)
        ensures
            body@ == self@.body(content_type),
    {
        match content_type {
            ContentType::Plaintext => self.message.clone(),
            ContentType::Html => {
                let status = status_to_text(self.http_status);
                String::from_str(PAGE_OPEN).concat(status.as_str()).concat(PAGE_HEADING).concat(
                    status.as_str(),
                ).concat(PAGE_MESSAGE).concat(self.message.as_str()).concat(PAGE_SERVER).concat(
                    server_name_text(),
                ).concat(PAGE_CLOSE)
            },
            ContentType::Json => String::from_str("{\"status\":").concat(
                decimal_string(self.http_status.as_u16() as u64).as_str(),
            ).concat(", \"message\": \"").concat(self.message.as_str()).concat("\"}"),
        }
    }

    /// The whole response for a request of the given version, in the given
    /// representation.
    pub fn http_response(&self, version: Version, content_type: ContentType) -> (rsp: Response)
        ensures
            rsp@ == self@.http_response(version, content_type),
    {
        let mut headers: Vec<(String, String)> = Vec::new();
        headers.push(header("server", server_name_text()));
        if self.close_connection && version == Version::Http11 {
            headers.push(header("connection", "close"));
        }
        if let Some(location) = &self.location {
            headers.push(header("location", location.as_str()));
        }
        headers.push(header("content-type", content_type.mime_text()));
        let body = self.body(content_type);
        assert(headers_view(headers@) =~= self@.headers(version, content_type));
        Response { status: self.http_status, version, headers, body }
    }
}

/// A strategy for answering errors.
pub trait HttpRescue {
    /// The response that the strategy makes up for an error; `None` where
    /// it lets the error pass.
    spec fn rescued(&self, error: ErrorView) -> Option<SyntheticView>;

    /// Makes up a response for the error, or hands the error back.
    fn rescue(&self, error: Error) -> (made: Result<SyntheticHttpResponse, Error>)
        ensures
            match made {
                Ok(rsp) => self.rescued(error@) == Some(rsp@),
                Err(e) => self.rescued(error@).is_none() && e@ == error@,
            },
    ;
}

/// Whether made-up responses carry headers that describe the error.
#[derive(Clone, Copy, Debug)]
pub struct EmitHeaders(pub bool);

/// Holds the strategy from which each connection's responder is made.
#[derive(Clone, Copy, Debug)]
pub struct ExtractRespond<P>(pub P);

/// Makes a responder for each request.
#[derive(Clone, Copy, Debug)]
pub struct NewRespond<R> {
    pub rescue: R,
}

/// Answers the failure of one request.
#[derive(Clone, Copy, Debug)]
pub struct Respond<R> {
    /// The strategy.
    pub rescue: R,
    /// The version of the request.
    pub version: Version,
    /// Whether the request is a gRPC call.
    pub is_grpc: bool,
    /// The client's address, where the transport gave one.
    pub client: Option<SocketAddr>,
    /// The representation that the request accepts.
    pub accept: ContentType,
}

/// What the client gets for a request.
#[derive(Debug)]
pub enum Reply<T> {
    /// The backend's own response.
    Upstream(T),
    /// A made-up response; `close_client` tells whether the client's
    /// connection is to be closed once the response is sent.
    Synthetic { response: Response, close_client: bool },
}

impl<P: Copy> ExtractRespond<P> {
    /// The maker of responders that holds this strategy.
    pub fn extract_param(&self) -> (new_respond: NewRespond<P>)
        ensures
            new_respond.rescue == self.0,
    {
        NewRespond { rescue: self.0 }
    }
}

/// Whether a request of the given version and content type is a gRPC call.
pub open spec fn is_grpc_request(version: Version, content_type: Option<Seq<char>>) -> bool {
    version == Version::H2 && match content_type {
        Some(value) => ContentType::grpc().is_prefix_of(value),
        None => false,
    }
}

impl<R: Copy> NewRespond<R> {
    /// The responder for a request: it keeps the request's version and
    /// client, the representation that its `Accept` header asks for, and
    /// whether it is a gRPC call.
    pub fn new_respond(&self, req: &RequestHead) -> (respond: Respond<R>)
        ensures
            respond.rescue == self.rescue,
            respond.version == req@.version,
            respond.is_grpc == is_grpc_request(req@.version, req@.content_type),
            respond.client == req@.client,
            respond.accept == ContentType::negotiated(req@.accept),
    {
        let accept = ContentType::negotiate(&req.accept);
        let is_grpc = match req.version {
            Version::H2 => match &req.content_type {
                Some(value) => starts_with(value.as_str(), "application/grpc"),
                None => false,
            },
            _ => false,
        };
        Respond { client: req.client, rescue: self.rescue, is_grpc, version: req.version, accept }
    }
}

impl<R> Respond<R> {
    /// The client's address; `0.0.0.0:0` where the transport gave none.
    pub fn client_addr(&self) -> (addr: SocketAddr)
        ensures
            addr == match self.client {
                Some(client) => client,
                None => SocketAddr { ip: IpAddr::V4(0, 0, 0, 0), port: 0 },
            },
    {
        match self.client {
            Some(client) => client,
            None => SocketAddr::v4(0, 0, 0, 0, 0),
        }
    }
}

impl<R: HttpRescue> Respond<R> {
    /// What the client gets: the backend's response where there is one; for
    /// an error the response that the strategy makes up, rendered for the
    /// request's version and accepted representation, or the error itself
    /// where the strategy lets it pass. The client's connection is to be
    /// closed where the made-up response says so and the client is known.
    pub fn respond<T>(&self, res: Result<T, Error>) -> (reply: Result<Reply<T>, Error>)
        ensures
            match res {
                Ok(rsp) => reply == Ok::<Reply<T>, Error>(Reply::Upstream(rsp)),
                Err(error) => match self.rescue.rescued(error@) {
                    Some(synthetic) => reply matches Ok(Reply::Synthetic { response, close_client })
                        && response@ == synthetic.http_response(self.version, self.accept)
                        && close_client == (synthetic.close_connection && self.client.is_some()),
                    None => reply matches Err(e) && e@ == error@,
                },
            },
    {
        let error = match res {
            Ok(rsp) => {
                return Ok(Reply::Upstream(rsp));
            },
            Err(error) => error,
        };
        let rsp = match self.rescue.rescue(error) {
            Ok(rsp) => rsp,
            Err(e) => {
                return Err(e);
            },
        };
        let close_client = rsp.close_connection() && self.client.is_some();
        let response = rsp.http_response(self.version, self.accept);
        Ok(Reply::Synthetic { response, close_client })
    }
}

/// A made-up response says `connection: close` exactly where the
/// connection must close and the version is HTTP/1.1.
pub proof fn law_close_header(synthetic: SyntheticView, version: Version, content_type: ContentType)
    ensures
        synthetic.http_response(version, content_type).has_header("connection"@, "close"@) <==> (
        synthetic.close_connection && version == Version::Http11),
        synthetic.http_response(version, content_type).has_header_named("connection"@) <==> (
        synthetic.close_connection && version == Version::Http11),
        synthetic.http_response(version, content_type).has_header("server"@, server_name()),
{
    reveal_strlit("connection");
    reveal_strlit("server");
    reveal_strlit("location");
    reveal_strlit("content-type");
    let rsp = synthetic.http_response(version, content_type);
    assert(rsp.headers[0] == ("server"@, server_name()));
    if synthetic.close_connection && version == Version::Http11 {
        assert(rsp.headers[1] == ("connection"@, "close"@));
    } else {
        assert forall|i: int| 0 <= i < rsp.headers.len() implies (#[trigger] rsp.headers[i]).0
            != "connection"@ by {
            assert(rsp.headers[i].0.len() != "connection"@.len());
        }
    }
}

} // verus!
