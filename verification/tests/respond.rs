use multipass::addr::SocketAddr;
use multipass::discover::{NotConfigured, NotResolved};
use multipass::error::{DispatchError, Error};
use multipass::http::error_respond::{
    render_status, status_to_text, ContentType, ExtractRespond, HttpRescue, NewRespond, Reply,
    SyntheticHttpResponse,
};
use multipass::http::{RequestHead, Response, ServerRescue, StatusCode, Version};

fn request(version: Version) -> RequestHead {
    RequestHead::new(version, "http://printer.local/").unwrap()
}

fn header<'a>(rsp: &'a Response, name: &str) -> Option<&'a str> {
    rsp.headers.iter().find(|(n, _)| n == name).map(|(_, v)| v.as_str())
}

fn rescued(error: Error, version: Version) -> (Response, bool) {
    let head = request(version).from_client(SocketAddr::v4(192, 168, 1, 7, 50000));
    let respond = NewRespond { rescue: ServerRescue }.new_respond(&head);
    match respond.respond::<()>(Err(error)) {
        Ok(Reply::Synthetic { response, close_client }) => (response, close_client),
        other => panic!("expected a made-up response, got {:?}", other),
    }
}

#[test]
fn fail_fast_on_http11_is_504_with_connection_close() {
    let (rsp, close) = rescued(Error::FailFast, Version::Http11);
    assert_eq!(rsp.status.as_u16(), 504);
    assert_eq!(rsp.version, Version::Http11);
    assert_eq!(header(&rsp, "connection"), Some("close"));
    assert!(close);
}

#[test]
fn no_route_is_404_without_connection_close() {
    let (rsp, close) = rescued(Error::NoRoute("http://x.local/".to_string()), Version::Http11);
    assert_eq!(rsp.status.as_u16(), 404);
    assert_eq!(header(&rsp, "connection"), None);
    assert!(!close);
}

#[test]
fn connection_close_is_for_http11_only() {
    let (rsp, close) = rescued(Error::FailFast, Version::H2);
    assert_eq!(rsp.status.as_u16(), 504);
    assert_eq!(rsp.version, Version::H2);
    assert_eq!(header(&rsp, "connection"), None);
    assert!(close);
    let (rsp, _) = rescued(Error::FailFast, Version::Http10);
    assert_eq!(header(&rsp, "connection"), None);
}

#[test]
fn rescue_maps_each_error_to_its_status() {
    let cases: Vec<(Error, u16, bool)> = vec![
        (Error::FailFast, 504, true),
        (Error::Overloaded, 503, true),
        (Error::NotResolved(NotResolved), 503, true),
        (Error::Dispatch(DispatchError::Refused), 503, true),
        (Error::Dispatch(DispatchError::TimedOut), 503, true),
        (Error::Dispatch(DispatchError::Reset), 502, true),
        (Error::NoRoute("/".to_string()), 404, false),
        (Error::NotConfigured(NotConfigured("ghost.local.".to_string())), 404, false),
        (Error::Unexpected("boom".to_string()), 500, true),
    ];
    for (error, status, close) in cases {
        let made = ServerRescue.rescue(error).unwrap();
        assert_eq!(made.http_status().as_u16(), status);
        assert_eq!(made.close_connection(), close);
    }
}

#[test]
fn protocol_error_is_not_rescued() {
    assert!(matches!(ServerRescue.rescue(Error::Protocol), Err(Error::Protocol)));
    let head = request(Version::H2);
    let respond = NewRespond { rescue: ServerRescue }.new_respond(&head);
    assert!(matches!(respond.respond::<()>(Err(Error::Protocol)), Err(Error::Protocol)));
}

#[test]
fn backend_response_passes_through() {
    let head = request(Version::Http11);
    let respond = ExtractRespond(ServerRescue).extract_param().new_respond(&head);
    match respond.respond(Ok(42u32)) {
        Ok(Reply::Upstream(n)) => assert_eq!(n, 42),
        other => panic!("expected the backend's response, got {:?}", other),
    }
}

#[test]
fn rescued_response_carries_the_errors_message() {
    let (rsp, _) = rescued(Error::NotResolved(NotResolved), Version::Http11);
    let head = request(Version::Http11).header("accept", "text/plain");
    let respond = NewRespond { rescue: ServerRescue }.new_respond(&head);
    let plain = match respond.respond::<()>(Err(Error::NotResolved(NotResolved))) {
        Ok(Reply::Synthetic { response, .. }) => response,
        other => panic!("unexpected {:?}", other),
    };
    assert_eq!(plain.body, "no mDNS service discovered for this domain");
    assert!(rsp.body.contains("<p>no mDNS service discovered for this domain</p>"));
    let unexpected = ServerRescue.rescue(Error::Unexpected("secret detail".to_string())).unwrap();
    let rsp = unexpected.http_response(Version::Http11, ContentType::Plaintext);
    assert_eq!(rsp.body, "unexpected error");
}

#[test]
fn client_connection_closes_only_where_the_client_is_known() {
    let head = request(Version::Http11);
    let respond = NewRespond { rescue: ServerRescue }.new_respond(&head);
    match respond.respond::<()>(Err(Error::FailFast)) {
        Ok(Reply::Synthetic { response, close_client }) => {
            assert!(!close_client);
            assert_eq!(header(&response, "connection"), Some("close"));
        }
        other => panic!("unexpected {:?}", other),
    }
    assert_eq!(respond.client_addr(), SocketAddr::v4(0, 0, 0, 0, 0));
    let known = request(Version::Http11).from_client(SocketAddr::v4(10, 1, 2, 3, 4567));
    let respond = NewRespond { rescue: ServerRescue }.new_respond(&known);
    assert_eq!(respond.client_addr(), SocketAddr::v4(10, 1, 2, 3, 4567));
}

#[test]
fn error_messages() {
    assert_eq!(Error::NoRoute("/a".to_string()).message(), "no route for request /a");
    assert_eq!(
        Error::NotConfigured(NotConfigured("ghost.local.".to_string())).message(),
        "mDNS service 'ghost.local.' not in configured domains"
    );
    assert_eq!(
        Error::NotResolved(NotResolved).message(),
        "no mDNS service discovered for this domain"
    );
    assert_eq!(Error::Overloaded.message(), "service queue is at capacity");
    assert_eq!(Error::FailFast.message(), "request waited too long for admission");
    assert_eq!(
        Error::Dispatch(DispatchError::Refused).message(),
        "backend refused the connection"
    );
    assert_eq!(Error::Dispatch(DispatchError::Reset).message(), "backend reset the connection");
    assert_eq!(
        Error::Dispatch(DispatchError::TimedOut).message(),
        "backend did not answer in time"
    );
    assert_eq!(Error::Protocol.message(), "backend broke the protocol");
    assert_eq!(Error::Unexpected("boom".to_string()).message(), "boom");
}

#[test]
fn constructors_set_status_and_close() {
    let all: Vec<(SyntheticHttpResponse, u16, bool)> = vec![
        (SyntheticHttpResponse::unexpected_error(), 500, true),
        (SyntheticHttpResponse::internal_error("m"), 500, true),
        (SyntheticHttpResponse::bad_gateway("m"), 502, true),
        (SyntheticHttpResponse::gateway_timeout("m"), 504, true),
        (SyntheticHttpResponse::unavailable("m"), 503, true),
        (SyntheticHttpResponse::unauthenticated("m"), 403, false),
        (SyntheticHttpResponse::permission_denied("m"), 403, false),
        (SyntheticHttpResponse::loop_detected("m"), 508, true),
        (SyntheticHttpResponse::not_found("m"), 404, false),
        (SyntheticHttpResponse::response(StatusCode::from_u16(418).unwrap(), "m"), 418, false),
        (
            SyntheticHttpResponse::redirect(StatusCode::from_u16(307).unwrap(), "http://a.example/"),
            307,
            false,
        ),
    ];
    for (rsp, status, close) in all {
        assert_eq!(rsp.http_status().as_u16(), status);
        assert_eq!(rsp.close_connection(), close);
        let made = rsp.http_response(Version::Http11, ContentType::Plaintext);
        assert_eq!(made.status.as_u16(), status);
        assert_eq!(header(&made, "connection").is_some(), close);
    }
}

#[test]
fn plain_text_response_is_exact() {
    let rsp = SyntheticHttpResponse::gateway_timeout("too slow")
        .http_response(Version::Http11, ContentType::Plaintext);
    let headers: Vec<(&str, &str)> =
        rsp.headers.iter().map(|(n, v)| (n.as_str(), v.as_str())).collect();
    assert_eq!(
        headers,
        vec![
            ("server", "multipass/0.1.0"),
            ("connection", "close"),
            ("content-type", "text/plain"),
        ]
    );
    assert_eq!(rsp.body, "too slow");
}

#[test]
fn json_response_is_exact() {
    let rsp = SyntheticHttpResponse::unavailable("queue full")
        .http_response(Version::H2, ContentType::Json);
    let headers: Vec<(&str, &str)> =
        rsp.headers.iter().map(|(n, v)| (n.as_str(), v.as_str())).collect();
    assert_eq!(
        headers,
        vec![("server", "multipass/0.1.0"), ("content-type", "application/json")]
    );
    assert_eq!(rsp.body, "{\"status\":503, \"message\": \"queue full\"}");
}

#[test]
fn html_response_is_exact() {
    let rsp = SyntheticHttpResponse::not_found("nothing here")
        .http_response(Version::Http11, ContentType::Html);
    assert_eq!(header(&rsp, "content-type"), Some("text/html"));
    let expected = "<!DOCTYLE html>
<html>
    <head>
        <meta charset=\"utf-8\">
        <meta name=\"viewport\" content=\"width=device-width, initial-scale=1\">
        <title>404 Not Found</title>
    </head>
    <body>
        <h1>404 Not Found</h1>
        <p>nothing here</p>
        <p><em>multipass/0.1.0</em></p>
    </body>
</html>";
    assert_eq!(rsp.body, expected);
}

#[test]
fn status_is_shown_with_its_reason_phrase() {
    let shown = |code: u16| {
        let rsp = SyntheticHttpResponse::response(StatusCode::from_u16(code).unwrap(), "m")
            .http_response(Version::Http11, ContentType::Html);
        let start = rsp.body.find("<h1>").unwrap() + 4;
        let end = rsp.body.find("</h1>").unwrap();
        rsp.body[start..end].to_string()
    };
    assert_eq!(shown(504), "504 Gateway Timeout");
    assert_eq!(shown(503), "503 Service Unavailable");
    assert_eq!(shown(502), "502 Bad Gateway");
    assert_eq!(shown(500), "500 Internal Server Error");
    assert_eq!(shown(200), "200 OK");
    assert_eq!(shown(999), "999 <unknown status code>");
}

#[test]
fn redirect_has_location_header() {
    let rsp = SyntheticHttpResponse::redirect(
        StatusCode::from_u16(308).unwrap(),
        "https://printer.local/new",
    )
    .http_response(Version::Http11, ContentType::Plaintext);
    let headers: Vec<(&str, &str)> =
        rsp.headers.iter().map(|(n, v)| (n.as_str(), v.as_str())).collect();
    assert_eq!(
        headers,
        vec![
            ("server", "multipass/0.1.0"),
            ("location", "https://printer.local/new"),
            ("content-type", "text/plain"),
        ]
    );
    assert_eq!(rsp.body, "redirected");
    assert_eq!(rsp.status.as_u16(), 308);
}

#[test]
fn status_code_range() {
    assert!(StatusCode::from_u16(99).is_none());
    assert!(StatusCode::from_u16(1000).is_none());
    assert!(StatusCode::from_u16(0).is_none());
    assert_eq!(StatusCode::from_u16(100).unwrap().as_u16(), 100);
    assert_eq!(StatusCode::from_u16(999).unwrap().as_u16(), 999);
    assert_eq!(StatusCode::forbidden().as_u16(), 403);
    assert_eq!(StatusCode::not_found().as_u16(), 404);
    assert_eq!(StatusCode::internal_server_error().as_u16(), 500);
    assert_eq!(StatusCode::bad_gateway().as_u16(), 502);
    assert_eq!(StatusCode::service_unavailable().as_u16(), 503);
    assert_eq!(StatusCode::gateway_timeout().as_u16(), 504);
    assert_eq!(StatusCode::loop_detected().as_u16(), 508);
}

#[test]
fn accept_header_chooses_the_representation() {
    let choose = |accept: Option<&str>| ContentType::negotiate(&accept.map(|s| s.to_string()));
    assert_eq!(choose(None), ContentType::Html);
    assert_eq!(choose(Some("")), ContentType::Html);
    assert_eq!(choose(Some("*/*")), ContentType::Html);
    assert_eq!(choose(Some("image/png")), ContentType::Html);
    assert_eq!(choose(Some("application/json")), ContentType::Json);
    assert_eq!(choose(Some("text/html")), ContentType::Html);
    assert_eq!(choose(Some("text/plain")), ContentType::Plaintext);
    assert_eq!(choose(Some("text/plain, application/json;q=0.5")), ContentType::Json);
    assert_eq!(choose(Some("text/plain, text/html")), ContentType::Html);
    assert_eq!(choose(Some("application/grpc")), ContentType::Html);
    assert_eq!(choose(Some("application/grpc, text/plain")), ContentType::Plaintext);
    assert_eq!(ContentType::Html.mime_text(), "text/html");
    assert_eq!(ContentType::Plaintext.mime_text(), "text/plain");
    assert_eq!(ContentType::Json.mime_text(), "application/json");
}

#[test]
fn responder_keeps_what_the_request_says() {
    let head = RequestHead::new(Version::H2, "http://printer.local/a")
        .unwrap()
        .header("accept", "application/json")
        .header("content-type", "application/grpc+proto");
    let respond = NewRespond { rescue: ServerRescue }.new_respond(&head);
    assert_eq!(respond.version, Version::H2);
    assert!(respond.is_grpc);
    assert_eq!(respond.accept, ContentType::Json);
    assert_eq!(respond.client, None);

    let head = RequestHead::new(Version::Http11, "http://printer.local/a")
        .unwrap()
        .header("content-type", "application/grpc");
    let respond = NewRespond { rescue: ServerRescue }.new_respond(&head);
    assert!(!respond.is_grpc);
    assert_eq!(respond.accept, ContentType::Html);

    let head = RequestHead::new(Version::H2, "http://printer.local/a")
        .unwrap()
        .header("content-type", "text/application/grpc");
    let respond = NewRespond { rescue: ServerRescue }.new_respond(&head);
    assert!(!respond.is_grpc);
}

#[test]
fn server_rescue_emits_headers() {
    assert!(ServerRescue.emit_headers().0);
    let _same: ServerRescue = ServerRescue.extract_param();
}

#[test]
fn status_with_given_reason() {
    assert_eq!(render_status(404, Some("Not Found")), "404 Not Found");
    assert_eq!(render_status(299, None), "299 <unknown status code>");
    assert_eq!(render_status(7, Some("")), "7 ");
    assert_eq!(status_to_text(StatusCode::gateway_timeout()), "504 Gateway Timeout");
    assert_eq!(status_to_text(StatusCode::from_u16(418).unwrap()), "418 I'm a teapot");
}
