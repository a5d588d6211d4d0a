use multipass::addr::{IpAddr, SocketAddr};
use multipass::config::{Admin, Config, ConfigFile, Domain, Listeners, QueueConfig};
use multipass::discover::{Discovered, Receiver, ServiceEvent, ServiceInfo};
use multipass::error::{DispatchError, Error};
use multipass::http::client::{Client, Connect};
use multipass::http::{RequestHead, Version};
use multipass::proxy::Served;
use multipass::queue::Admission;
use multipass::route::Recognize;
use multipass::serve::Accepted;
use multipass::Proxy;

fn proxy_with(services: Vec<(&str, &str, &str)>, queue: QueueConfig) -> Proxy {
    let mut listen = Listeners::default();
    listen.queue = queue;
    let config = Config::load(ConfigFile {
        listen,
        admin: Admin::default(),
        local_tld: "local".to_string(),
        services: services
            .into_iter()
            .map(|(key, host, service)| {
                (
                    key.to_string(),
                    Domain {
                        recognize: Recognize { host: Some(host.to_string()), path_regex: None },
                        service: service.to_string(),
                    },
                )
            })
            .collect(),
        dyn_dns: None,
    })
    .unwrap();
    Proxy::new(config)
}

fn printer() -> Proxy {
    proxy_with(vec![("printer", "printer.local", "_http._tcp")], QueueConfig::default())
}

fn client() -> Accepted {
    Accepted::new(SocketAddr::v4(192, 168, 1, 20, 51234))
}

fn get(uri: &str) -> RequestHead {
    RequestHead::new(Version::Http11, uri)
        .unwrap()
        .from_client(SocketAddr::v4(192, 168, 1, 20, 51234))
}

fn resolve(proxy: &mut Proxy, browse: usize, hostname: &str, ip: IpAddr, port: u16) -> Option<Receiver> {
    proxy.handle_event(
        browse,
        &ServiceEvent::ServiceResolved(ServiceInfo {
            hostname: hostname.to_string(),
            addresses: vec![ip],
            port,
        }),
    )
}

fn status_of(served: &Served) -> Option<u16> {
    match served {
        Served::Reply { response, .. } => Some(response.status.as_u16()),
        _ => None,
    }
}

#[test]
fn printer_is_unavailable_until_resolved_and_then_dispatched() {
    let mut proxy = printer();
    assert_eq!(proxy.discover().browse_count(), 1);
    assert_eq!(proxy.discover().service_type(0), "_http._tcp.local.");
    assert_eq!(proxy.configuration().services[0].0, "printer.local.");

    let req = get("http://printer.local/");
    match proxy.push_http_server(&client(), &req, 0) {
        Served::Reply { response, close_client } => {
            assert_eq!(response.status.as_u16(), 503);
            assert!(close_client);
            assert!(response
                .headers
                .iter()
                .any(|(n, v)| n == "connection" && v == "close"));
            assert!(response.body.contains("no mDNS service discovered for this domain"));
        }
        other => panic!("expected 503, got {:?}", other),
    }

    let updated = resolve(&mut proxy, 0, "printer.local.", IpAddr::V4(10, 0, 0, 5), 8080);
    assert_eq!(updated, Some(Receiver { slot: 0 }));

    match proxy.push_http_server(&client(), &req, 1) {
        Served::Forward { endpoint, forwarded, rx, ticket } => {
            assert_eq!(endpoint.addr, SocketAddr::v4(10, 0, 0, 5, 8080));
            assert_eq!(endpoint.authority, "printer.local");
            assert_eq!(
                forwarded,
                Some((
                    "forwarded".to_string(),
                    "for=192.168.1.20:51234;host=printer.local.".to_string()
                ))
            );
            assert_eq!(rx, Receiver { slot: 0 });
            assert_eq!(ticket.id, 0);
            assert_eq!(ticket.deadline, 5_001);
            assert!(matches!(proxy.poll_admission(&rx, &ticket, 2), Ok(Admission::Proceed)));
            assert!(proxy.finish(&rx, &ticket, &req, Ok(())).is_none());
        }
        other => panic!("expected dispatch, got {:?}", other),
    }
}

#[test]
fn request_without_route_is_answered_with_404() {
    let mut proxy = printer();
    let req = get("http://elsewhere.local/");
    match proxy.push_http_server(&client(), &req, 0) {
        Served::Reply { response, close_client } => {
            assert_eq!(response.status.as_u16(), 404);
            assert!(!close_client);
            assert!(!response.headers.iter().any(|(n, _)| n == "connection"));
            assert!(response.body.contains("no route for request http://elsewhere.local/"));
        }
        other => panic!("expected 404, got {:?}", other),
    }
}

#[test]
fn event_for_unknown_host_updates_no_watch() {
    let mut proxy = proxy_with(
        vec![("printer", "printer.local", "_http._tcp"), ("scanner", "scanner.local", "_http._tcp")],
        QueueConfig::default(),
    );
    assert_eq!(proxy.discover().browse_count(), 1);
    assert_eq!(resolve(&mut proxy, 0, "toaster.local.", IpAddr::V4(10, 0, 0, 9), 80), None);
    assert_eq!(status_of(&proxy.push_http_server(&client(), &get("http://printer.local/"), 0)), Some(503));
    assert_eq!(status_of(&proxy.push_http_server(&client(), &get("http://scanner.local/"), 0)), Some(503));
}

#[test]
fn backends_of_one_type_are_told_apart_by_hostname() {
    let mut proxy = proxy_with(
        vec![("printer", "printer.local", "_http._tcp"), ("scanner", "scanner.local", "_http._tcp")],
        QueueConfig::default(),
    );
    resolve(&mut proxy, 0, "scanner.local.", IpAddr::V4(10, 0, 0, 6), 80);
    assert_eq!(status_of(&proxy.push_http_server(&client(), &get("http://printer.local/"), 0)), Some(503));
    match proxy.push_http_server(&client(), &get("http://scanner.local/scan"), 0) {
        Served::Forward { endpoint, rx, .. } => {
            assert_eq!(endpoint.addr, SocketAddr::v4(10, 0, 0, 6, 80));
            assert_eq!(rx, Receiver { slot: 1 });
        }
        other => panic!("expected dispatch, got {:?}", other),
    }
}

#[test]
fn full_queue_is_answered_with_503() {
    let mut proxy =
        proxy_with(vec![("printer", "printer.local", "_http._tcp")], QueueConfig::new(2, 100));
    resolve(&mut proxy, 0, "printer.local.", IpAddr::V4(10, 0, 0, 5), 8080);
    let req = get("http://printer.local/");
    let first = proxy.push_http_server(&client(), &req, 0);
    let second = proxy.push_http_server(&client(), &req, 0);
    assert!(matches!(first, Served::Forward { .. }));
    assert!(matches!(second, Served::Forward { .. }));
    match proxy.push_http_server(&client(), &req, 0) {
        Served::Reply { response, close_client } => {
            assert_eq!(response.status.as_u16(), 503);
            assert!(close_client);
            assert!(response.body.contains("service queue is at capacity"));
        }
        other => panic!("expected 503, got {:?}", other),
    }
    let (rx, ticket) = match first {
        Served::Forward { rx, ticket, .. } => (rx, ticket),
        _ => unreachable!(),
    };
    assert!(proxy.finish(&rx, &ticket, &req, Ok(())).is_none());
    assert!(matches!(proxy.push_http_server(&client(), &req, 1), Served::Forward { .. }));
}

#[test]
fn waiting_too_long_is_answered_with_504() {
    let mut proxy =
        proxy_with(vec![("printer", "printer.local", "_http._tcp")], QueueConfig::new(2, 100));
    resolve(&mut proxy, 0, "printer.local.", IpAddr::V4(10, 0, 0, 5), 8080);
    let req = get("http://printer.local/");
    let _first = proxy.push_http_server(&client(), &req, 0);
    let (rx, ticket) = match proxy.push_http_server(&client(), &req, 0) {
        Served::Forward { rx, ticket, .. } => (rx, ticket),
        other => panic!("expected dispatch, got {:?}", other),
    };
    assert!(matches!(proxy.poll_admission(&rx, &ticket, 100), Ok(Admission::Wait)));
    let error = match proxy.poll_admission(&rx, &ticket, 101) {
        Err(error) => error,
        Ok(other) => panic!("expected a timeout, got {:?}", other),
    };
    assert!(matches!(error, Error::FailFast));
    match proxy.finish(&rx, &ticket, &req, Err(error)) {
        Some(Served::Reply { response, close_client }) => {
            assert_eq!(response.status.as_u16(), 504);
            assert!(close_client);
            assert!(response.headers.iter().any(|(n, v)| n == "connection" && v == "close"));
        }
        other => panic!("expected 504, got {:?}", other),
    }
}

#[test]
fn dispatch_failures_are_answered() {
    let mut proxy = printer();
    resolve(&mut proxy, 0, "printer.local.", IpAddr::V4(10, 0, 0, 5), 8080);
    let req = get("http://printer.local/").header("accept", "application/json");
    let cases = [
        (DispatchError::Refused, 503, "backend refused the connection"),
        (DispatchError::Reset, 502, "backend reset the connection"),
        (DispatchError::TimedOut, 503, "backend did not answer in time"),
    ];
    for (error, status, message) in cases {
        let (rx, ticket) = match proxy.push_http_server(&client(), &req, 0) {
            Served::Forward { rx, ticket, .. } => (rx, ticket),
            other => panic!("expected dispatch, got {:?}", other),
        };
        match proxy.finish(&rx, &ticket, &req, Err(Error::Dispatch(error))) {
            Some(Served::Reply { response, .. }) => {
                assert_eq!(response.status.as_u16(), status);
                assert_eq!(
                    response.body,
                    format!("{{\"status\":{}, \"message\": \"{}\"}}", status, message)
                );
            }
            other => panic!("expected a response, got {:?}", other),
        }
    }
    let (rx, ticket) = match proxy.push_http_server(&client(), &req, 0) {
        Served::Forward { rx, ticket, .. } => (rx, ticket),
        other => panic!("expected dispatch, got {:?}", other),
    };
    assert!(matches!(
        proxy.finish(&rx, &ticket, &req, Err(Error::Protocol)),
        Some(Served::Fail(Error::Protocol))
    ));
}

#[test]
fn removal_makes_the_backend_unavailable_again() {
    let mut proxy = printer();
    resolve(&mut proxy, 0, "printer.local.", IpAddr::V4(10, 0, 0, 5), 8080);
    let req = get("http://printer.local/");
    assert!(matches!(proxy.push_http_server(&client(), &req, 0), Served::Forward { .. }));
    proxy.handle_event(
        0,
        &ServiceEvent::ServiceRemoved("_http._tcp.local.".to_string(), "printer.local.".to_string()),
    );
    assert_eq!(status_of(&proxy.push_http_server(&client(), &req, 1)), Some(503));
}

#[test]
fn discovery_stage_reports_each_failure() {
    let mut proxy =
        proxy_with(vec![("printer", "printer.local", "_http._tcp")], QueueConfig::new(1, 100));
    assert!(matches!(
        proxy.push_http_discover(&"ghost.local.".to_string(), 0),
        Err(Error::NotConfigured(_))
    ));
    assert!(matches!(
        proxy.push_http_discover(&"printer.local.".to_string(), 0),
        Err(Error::NotResolved(_))
    ));
    resolve(&mut proxy, 0, "printer.local.", IpAddr::V4(10, 0, 0, 5), 8080);
    let admitted = proxy.push_http_discover(&"printer.local.".to_string(), 0).unwrap();
    assert_eq!(admitted.target.addr, SocketAddr::v4(10, 0, 0, 5, 8080));
    assert_eq!(admitted.rx, Receiver { slot: 0 });
    assert!(matches!(
        proxy.push_http_discover(&"printer.local.".to_string(), 0),
        Err(Error::Overloaded)
    ));
}

#[test]
fn endpoint_takes_authority_from_request_then_host_then_backend() {
    let mut proxy = printer();
    let rx = Receiver { slot: 0 };
    let target = Discovered { addr: SocketAddr::v4(10, 0, 0, 5, 8080), name: "printer.local.".to_string() };
    let absolute = get("http://printer.local:81/x").header("host", "other.local");
    assert_eq!(proxy.push_http_endpoint(&rx, &target, &absolute).authority, "printer.local:81");
    let origin = get("/x").header("host", "other.local");
    assert_eq!(proxy.push_http_endpoint(&rx, &target, &origin).authority, "other.local");
    let bare = get("/x");
    let endpoint = proxy.push_http_endpoint(&rx, &target, &bare);
    assert_eq!(endpoint.authority, "printer.local.");
    assert_eq!(endpoint.addr, SocketAddr::v4(10, 0, 0, 5, 8080));
}

#[test]
fn client_is_reused_until_the_address_changes() {
    let mut proxy = printer();
    let req = get("http://printer.local/");
    let first = SocketAddr::v4(10, 0, 0, 5, 8080);
    let second = SocketAddr::v4(10, 0, 0, 7, 9090);
    resolve(&mut proxy, 0, "printer.local.", IpAddr::V4(10, 0, 0, 5), 8080);
    let mut clients = Vec::new();
    for now in 0..2 {
        match proxy.push_http_server(&client(), &req, now) {
            Served::Forward { endpoint, rx, ticket, .. } => {
                clients.push(endpoint.client);
                assert!(proxy.finish(&rx, &ticket, &req, Ok(())).is_none());
            }
            other => panic!("expected dispatch, got {:?}", other),
        }
    }
    resolve(&mut proxy, 0, "printer.local.", IpAddr::V4(10, 0, 0, 7), 9090);
    match proxy.push_http_server(&client(), &req, 2) {
        Served::Forward { endpoint, .. } => {
            assert_eq!(endpoint.addr, second);
            clients.push(endpoint.client);
        }
        other => panic!("expected dispatch, got {:?}", other),
    }
    assert_eq!(
        clients,
        vec![
            Client::Open { connect: Connect { addr: first }, retire: None },
            Client::Reuse { connect: Connect { addr: first } },
            Client::Open { connect: Connect { addr: second }, retire: Some(first) },
        ]
    );
}

#[test]
fn eviction_leaves_requests_working() {
    let mut proxy = printer();
    resolve(&mut proxy, 0, "printer.local.", IpAddr::V4(10, 0, 0, 5), 8080);
    let req = get("http://printer.local/");
    assert!(matches!(proxy.push_http_server(&client(), &req, 0), Served::Forward { .. }));
    assert_eq!(proxy.evict(59_999), 0);
    assert_eq!(proxy.evict(60_000), 1);
    assert!(matches!(proxy.push_http_server(&client(), &req, 60_000), Served::Forward { .. }));
}
