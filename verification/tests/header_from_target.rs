use multipass::addr::{IpAddr, SocketAddr};
use multipass::http::header_from_target::{forwarded, NewHeaderFromTarget, Which};
use multipass::http::Route;
use multipass::serve::Accepted;

fn pair(header: Option<(String, String)>) -> Option<(String, String)> {
    header
}

#[test]
fn forwarded_names_client_and_backend() {
    let accepted = Accepted::new(SocketAddr::v4(192, 168, 1, 20, 51234));
    let route = Route::from(("printer.local.".to_string(), accepted));
    assert_eq!(
        forwarded(&route),
        Some(("forwarded".to_string(), "for=192.168.1.20:51234;host=printer.local.".to_string()))
    );
    assert_eq!(route.param(), "printer.local.");
    assert_eq!(route.name(), "printer.local.");
    assert_eq!(*route.parent(), accepted);
}

#[test]
fn forwarded_for_v6_client() {
    let client = SocketAddr { ip: IpAddr::V6(0, 0, 0, 0, 0, 0, 0, 1), port: 80 };
    let route = Route::from(("a.local.".to_string(), Accepted::new(client)));
    assert_eq!(
        forwarded(&route),
        Some(("forwarded".to_string(), "for=[0:0:0:0:0:0:0:1]:80;host=a.local.".to_string()))
    );
}

#[test]
fn forwarded_is_left_out_where_the_name_is_unfit() {
    let accepted = Accepted::new(SocketAddr::v4(1, 2, 3, 4, 5));
    let route = Route::from(("bad\nname".to_string(), accepted));
    assert_eq!(forwarded(&route), None);
}

#[test]
fn header_goes_where_which_says() {
    let cases = [(true, false), (false, true), (true, true), (false, false)];
    for (request, response) in cases {
        let layer = NewHeaderFromTarget::layer_via(Which { request, response }, ());
        let service = layer.new_service("x-name".to_string(), "value".to_string());
        let (on_request, mut future) = service.call();
        let expected = Some(("x-name".to_string(), "value".to_string()));
        assert_eq!(pair(on_request), if request { expected.clone() } else { None });
        assert_eq!(future.poll(), if response { expected } else { None });
        assert_eq!(future.poll(), None);
    }
    assert_eq!(Which::default(), Which { request: false, response: false });
    assert_eq!(NewHeaderFromTarget::layer_via(Which::default(), 7u8).extract(), 7);
}
