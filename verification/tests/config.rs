use multipass::addr::SocketAddr;
use multipass::config::{
    find_duplicate, Admin, Config, ConfigError, ConfigFile, Domain, DynDns, Listeners, QueueConfig,
};
use multipass::http::{RequestHead, Version};
use multipass::route::Recognize;

fn domain(host: Option<&str>, path: Option<&str>, service: &str) -> Domain {
    Domain {
        recognize: Recognize {
            host: host.map(|s| s.to_string()),
            path_regex: path.map(|s| s.to_string()),
        },
        service: service.to_string(),
    }
}

fn file(services: Vec<(&str, Domain)>) -> ConfigFile {
    ConfigFile {
        listen: Listeners::default(),
        admin: Admin::default(),
        local_tld: Config::default_local_tld(),
        services: services.into_iter().map(|(k, d)| (k.to_string(), d)).collect(),
        dyn_dns: None,
    }
}

#[test]
fn defaults() {
    assert_eq!(QueueConfig::default_capacity(), 1000);
    assert_eq!(QueueConfig::default_timeout(), 5000);
    let queue = QueueConfig::default();
    assert_eq!(queue.capacity(), 1000);
    assert_eq!(queue.timeout(), 5000);
    assert_eq!(queue, QueueConfig::new(1000, 5000));
    let listen = Listeners::default();
    assert_eq!(listen.http, SocketAddr::v4(0, 0, 0, 0, 80));
    assert_eq!(listen.https, SocketAddr::v4(0, 0, 0, 0, 443));
    assert_eq!(listen.queue, queue);
    assert_eq!(Listeners::default_http(), SocketAddr::v4(0, 0, 0, 0, 80));
    assert_eq!(Listeners::default_https(), SocketAddr::v4(0, 0, 0, 0, 443));
    let admin = Admin::default();
    assert_eq!(admin.addr, Some(SocketAddr::v4(127, 0, 0, 1, 6660)));
    assert!(admin.enabled);
    assert_eq!(admin.queue, queue);
    assert_eq!(Admin::default_addr(), SocketAddr::v4(127, 0, 0, 1, 6660));
    assert_eq!(Config::default_local_tld(), "local");
    assert_eq!(Domain::default_ty_domain(), "_http._tcp");
}

#[test]
fn load_names_backends_and_builds_routes_in_order() {
    let config = Config::load(file(vec![
        ("eclss", domain(None, Some("/eclss/*"), "_https._tcp")),
        ("printer", domain(Some("printer.local"), None, "_http._tcp")),
    ]))
    .unwrap();
    assert_eq!(config.local_tld, "local");
    assert_eq!(config.services.len(), 2);
    assert_eq!(config.services[0].0, "eclss.local.");
    assert_eq!(config.services[0].1.service, "_https._tcp");
    assert_eq!(config.services[0].1.recognize.path_regex, Some("/eclss/*".to_string()));
    assert_eq!(config.services[1].0, "printer.local.");
    assert_eq!(config.services[1].1.recognize.host, Some("printer.local".to_string()));
    assert_eq!(config.routes.len(), 2);
    assert_eq!(config.listeners, Listeners::default());
    assert_eq!(config.admin, Some(SocketAddr::v4(127, 0, 0, 1, 6660)));
    assert_eq!(config.dyn_dns, None);

    let both = RequestHead::new(Version::Http11, "http://printer.local/eclss/x").unwrap();
    assert_eq!(config.routes.select(&both).unwrap(), "eclss.local.");
    let host = RequestHead::new(Version::Http11, "http://printer.local/").unwrap();
    assert_eq!(config.routes.select(&host).unwrap(), "printer.local.");
}

#[test]
fn load_uses_the_configured_domain() {
    let mut f = file(vec![("printer", domain(Some("printer.lan"), None, "_ipp._tcp"))]);
    f.local_tld = "lan".to_string();
    f.dyn_dns = Some(DynDns::Namecheap {
        token: "example-token".to_string(),
        domain: "example.com".to_string(),
        subdomains: vec!["www".to_string()],
    });
    f.listen.http = SocketAddr::v4(0, 0, 0, 0, 8080);
    let config = Config::load(f).unwrap();
    assert_eq!(config.services[0].0, "printer.lan.");
    assert_eq!(config.local_tld, "lan");
    assert_eq!(config.listeners.http, SocketAddr::v4(0, 0, 0, 0, 8080));
    assert_eq!(config.listeners.https, SocketAddr::v4(0, 0, 0, 0, 443));
    assert!(matches!(config.dyn_dns, Some(DynDns::Namecheap { .. })));
}

#[test]
fn admin_enabled_uses_address_or_default() {
    let enabled = Admin { addr: None, enabled: true, queue: QueueConfig::default() };
    assert_eq!(enabled.resolve(), Ok(Some(SocketAddr::v4(127, 0, 0, 1, 6660))));
    let given = Admin { addr: Some(SocketAddr::v4(10, 0, 0, 1, 9000)), ..enabled };
    assert_eq!(given.resolve(), Ok(Some(SocketAddr::v4(10, 0, 0, 1, 9000))));
    let mut f = file(vec![]);
    f.admin = given;
    assert_eq!(Config::load(f).unwrap().admin, Some(SocketAddr::v4(10, 0, 0, 1, 9000)));
}

#[test]
fn admin_disabled_without_address_is_off() {
    let disabled = Admin { addr: None, enabled: false, queue: QueueConfig::default() };
    assert_eq!(disabled.resolve(), Ok(None));
    let mut f = file(vec![]);
    f.admin = disabled;
    assert_eq!(Config::load(f).unwrap().admin, None);
}

#[test]
fn admin_disabled_with_address_is_refused() {
    let addr = SocketAddr::v4(127, 0, 0, 1, 6660);
    let conflicting = Admin { addr: Some(addr), enabled: false, queue: QueueConfig::default() };
    assert_eq!(conflicting.resolve(), Err(addr));
    let mut f = file(vec![("a", domain(None, None, "_http._tcp"))]);
    f.admin = conflicting;
    match Config::load(f) {
        Err(ConfigError::AdminDisabledWithAddress(found)) => {
            assert_eq!(found, addr);
            assert_eq!(
                ConfigError::AdminDisabledWithAddress(found).to_text(),
                "Admin server is disabled, but an address is provided: 127.0.0.1:6660"
            );
        }
        other => panic!("expected a refusal, got {:?}", other),
    }
}

#[test]
fn backend_named_twice_is_refused() {
    let services = vec![
        ("a", domain(None, None, "_http._tcp")),
        ("b", domain(None, None, "_http._tcp")),
        ("a", domain(None, None, "_ipp._tcp")),
    ];
    let f = file(services);
    assert_eq!(find_duplicate(&f.services), Some(2));
    match Config::load(f) {
        Err(ConfigError::DuplicateService(name)) => {
            assert_eq!(name, "a");
            assert_eq!(
                ConfigError::DuplicateService(name).to_text(),
                "service 'a' is configured twice"
            );
        }
        other => panic!("expected a refusal, got {:?}", other),
    }
    let fine = file(vec![("a", domain(None, None, "x")), ("b", domain(None, None, "x"))]);
    assert_eq!(find_duplicate(&fine.services), None);
}

#[test]
fn admin_conflict_is_reported_before_duplicates() {
    let mut f = file(vec![
        ("a", domain(None, None, "_http._tcp")),
        ("a", domain(None, None, "_http._tcp")),
    ]);
    f.admin = Admin {
        addr: Some(SocketAddr::v4(1, 1, 1, 1, 1)),
        enabled: false,
        queue: QueueConfig::default(),
    };
    assert!(matches!(Config::load(f), Err(ConfigError::AdminDisabledWithAddress(_))));
}
