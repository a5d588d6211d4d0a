use multipass::addr::SocketAddr;
use multipass::discover::{Discovered, Receiver};
use multipass::http::client::{Client, Connect, NewClient};

fn at(addr: SocketAddr) -> Discovered {
    Discovered { addr, name: "printer.local.".to_string() }
}

#[test]
fn connector_ignores_the_request_target() {
    let connect = Connect { addr: SocketAddr::v4(10, 0, 0, 5, 8080) };
    assert_eq!(connect.call("http://elsewhere.example/"), SocketAddr::v4(10, 0, 0, 5, 8080));
    assert_eq!(connect.call(""), SocketAddr::v4(10, 0, 0, 5, 8080));
}

#[test]
fn one_client_for_each_backend_and_address() {
    let a = SocketAddr::v4(10, 0, 0, 5, 8080);
    let b = SocketAddr::v4(10, 0, 0, 6, 8080);
    let mut clients = NewClient::layer(2);
    assert_eq!(clients.len(), 2);
    let first = Receiver { slot: 0 };
    let second = Receiver { slot: 1 };
    assert_eq!(
        clients.new_service(&first, &at(a)),
        Client::Open { connect: Connect { addr: a }, retire: None }
    );
    assert_eq!(clients.new_service(&first, &at(a)), Client::Reuse { connect: Connect { addr: a } });
    assert_eq!(
        clients.new_service(&second, &at(a)),
        Client::Open { connect: Connect { addr: a }, retire: None }
    );
    assert_eq!(
        clients.new_service(&first, &at(b)),
        Client::Open { connect: Connect { addr: b }, retire: Some(a) }
    );
    assert_eq!(clients.new_service(&first, &at(b)), Client::Reuse { connect: Connect { addr: b } });
    assert_eq!(
        clients.new_service(&first, &at(a)),
        Client::Open { connect: Connect { addr: a }, retire: Some(b) }
    );
    assert_eq!(clients.new_service(&second, &at(a)), Client::Reuse { connect: Connect { addr: a } });
}
