//! The gateway's configuration, once it has been read and parsed.

use vstd::prelude::*;
use vstd::string::StringExecFns;
use crate::addr::{IpAddr, SocketAddr};
use crate::discover::Name;
use crate::route::{Recognize, RoutingTable};
use crate::text::lemma_same_suffix;

verus! {

/// The limits of a backend's admission queue.
#[derive(Clone, Copy, Debug, PartialEq, Eq, Structural)]
pub struct QueueConfig {
    capacity: usize,
    timeout: u64,
}

impl QueueConfig {
    /// A queue that admits `capacity` requests at a time and lets each wait
    /// `timeout` milliseconds for admission.
    pub fn new(capacity: usize, timeout: u64) -> (queue: QueueConfig)
        ensures
            queue.spec_capacity() == capacity,
            queue.spec_timeout() == timeout,
    {
        QueueConfig { capacity, timeout }
    }

    /// How many requests a queue admits at a time.
    pub closed spec fn spec_capacity(self) -> usize {
        self.capacity
    }

    /// How many milliseconds a request may wait for admission.
    pub closed spec fn spec_timeout(self) -> u64 {
        self.timeout
    }

    /// How many requests a queue admits at a time where nothing is
    /// configured: 1000.
    pub fn default_capacity() -> (capacity: usize)
        ensures
            capacity == 1000,
    {
        1000
    }

    /// How long a request may wait for admission where nothing is
    /// configured: five seconds, in milliseconds.
    pub fn default_timeout() -> (timeout: u64)
        ensures
            timeout == 5000,
    {
        5000
    }

    /// How many requests a queue admits at a time.
    pub fn capacity(&self) -> (capacity: usize)
        ensures
            capacity == self.spec_capacity(),
    {
        self.capacity
    }

    /// How many milliseconds a request may wait for admission.
    pub fn timeout(&self) -> (timeout: u64)
        ensures
            timeout == self.spec_timeout(),
    {
        self.timeout
    }
}

impl Default for QueueConfig {
    fn default() -> (queue: Self)
        ensures
            queue.spec_capacity() == 1000,
            queue.spec_timeout() == 5000,
    {
        Self { capacity: Self::default_capacity(), timeout: Self::default_timeout() }
    }
}

/// Where the gateway listens, and the queue limits of what it serves there.
#[derive(Clone, Copy, Debug, PartialEq, Eq, Structural)]
pub struct Listeners {
    pub http: SocketAddr,
    pub https: SocketAddr,
    pub queue: QueueConfig,
}

impl Listeners {
    /// Where HTTP is served where nothing is configured: `0.0.0.0:80`.
    pub fn default_http() -> (addr: SocketAddr)
        ensures
            addr == (SocketAddr { ip: IpAddr::V4(0, 0, 0, 0), port: 80 }),
    {
        SocketAddr::v4(0, 0, 0, 0, 80)
    }

    /// Where HTTPS is served where nothing is configured: `0.0.0.0:443`.
    pub fn default_https() -> (addr: SocketAddr)
        ensures
            addr == (SocketAddr { ip: IpAddr::V4(0, 0, 0, 0), port: 443 }),
    {
        SocketAddr::v4(0, 0, 0, 0, 443)
    }
}

impl Default for Listeners {
    fn default() -> (listen: Self)
        ensures
            listen.http == (SocketAddr { ip: IpAddr::V4(0, 0, 0, 0), port: 80 }),
            listen.https == (SocketAddr { ip: IpAddr::V4(0, 0, 0, 0), port: 443 }),
            listen.queue.spec_capacity() == 1000,
            listen.queue.spec_timeout() == 5000,
    {
        Self {
            http: Self::default_http(),
            https: Self::default_https(),
            queue: QueueConfig::default(),
        }
    }
}

/// The administration server as the configuration file describes it.
#[derive(Clone, Copy, Debug, PartialEq, Eq, Structural)]
pub struct Admin {
    pub addr: Option<SocketAddr>,
    pub enabled: bool,
    pub queue: QueueConfig,
}

impl Admin {
    /// Where the administration server listens where nothing is
    /// configured: `127.0.0.1:6660`.
    pub fn default_addr() -> (addr: SocketAddr)
        ensures
            addr == (SocketAddr { ip: IpAddr::V4(127, 0, 0, 1), port: 6660 }),
    {
        SocketAddr::v4(127, 0, 0, 1, 6660)
    }

    /// Where the administration server is to listen: where it is enabled,
    /// the configured address or else `127.0.0.1:6660`; where it is
    /// disabled, nowhere. `Err` with the address where the server is
    /// disabled and an address is configured all the same.
    pub open spec fn resolved(self) -> Result<Option<SocketAddr>, SocketAddr> {
        if self.enabled {
            match self.addr {
                Some(addr) => Ok(Some(addr)),
                None => Ok(Some(SocketAddr { ip: IpAddr::V4(127, 0, 0, 1), port: 6660 })),
            }
        } else {
            match self.addr {
                Some(addr) => Err(addr),
                None => Ok(None),
            }
        }
    }

    /// Where the administration server is to listen.
    pub fn resolve(&self) -> (admin: Result<Option<SocketAddr>, SocketAddr>)
        ensures
            admin == self.resolved(),
    {
        if self.enabled {
            match self.addr {
                Some(addr) => Ok(Some(addr)),
                None => Ok(Some(Self::default_addr())),
            }
        } else {
            match self.addr {
                Some(addr) => Err(addr),
                None => Ok(None),
            }
        }
    }
}

impl Default for Admin {
    fn default() -> (admin: Self)
        ensures
            admin.addr == Some(SocketAddr { ip: IpAddr::V4(127, 0, 0, 1), port: 6660 }),
            admin.enabled,
            admin.queue.spec_capacity() == 1000,
            admin.queue.spec_timeout() == 5000,
    {
        Self { addr: Some(Self::default_addr()), queue: QueueConfig::default(), enabled: true }
    }
}

/// A provider of dynamic DNS that is told the gateway's address.
#[derive(Clone, Debug, PartialEq, Eq)]
pub enum DynDns {
    Namecheap { token: String, domain: String, subdomains: Vec<String> },
}

/// One configured backend: how requests for it are recognised, and the
/// service type under which it is advertised.
#[derive(Debug)]
pub struct Domain {
    pub recognize: Recognize,
    pub service: String,
}

impl Clone for Domain {
    fn clone(&self) -> (copy: Self)
        ensures
            copy == *self,
    {
        Domain { recognize: self.recognize.clone(), service: self.service.clone() }
    }
}

impl Domain {
    /// The service type of a backend where none is configured:
    /// `_http._tcp`.
    pub fn default_ty_domain() -> (service: String)
        ensures
            service@ == "_http._tcp"@,
    {
        String::from_str("_http._tcp")
    }
}

/// The configuration as it stands in the file, defaults filled in. The
/// backends are in the order of the file, each under its short name.
#[derive(Debug)]
pub struct ConfigFile {
    pub listen: Listeners,
    pub admin: Admin,
    pub local_tld: String,
    pub services: Vec<(String, Domain)>,
    pub dyn_dns: Option<DynDns>,
}

/// The configuration that the gateway runs on.
#[derive(Debug)]
pub struct Config {
    pub listeners: Listeners,
    pub admin: Option<SocketAddr>,
    pub local_tld: String,
    pub dyn_dns: Option<DynDns>,
    pub services: Vec<(Name, Domain)>,
    pub routes: RoutingTable,
}

/// Why a configuration file cannot be run on.
#[derive(Debug)]
pub enum ConfigError {
    /// The administration server is disabled, and yet has an address.
    AdminDisabledWithAddress(SocketAddr),
    /// Two backends have the same short name.
    DuplicateService(String),
}

impl ConfigError {
    /// What the error says of itself.
    pub open spec fn message(self) -> Seq<char> {
        match self {
            ConfigError::AdminDisabledWithAddress(addr) =>
                "Admin server is disabled, but an address is provided: "@ + addr.text(),
            ConfigError::DuplicateService(name) => "service '"@ + name@ + "' is configured twice"@,
        }
    }

    /// What the error says of itself.
    pub fn to_text(&self) -> (text: String)
        ensures
            text@ == self.message(),
    {
        match self {
            ConfigError::AdminDisabledWithAddress(addr) => String::from_str(
                "Admin server is disabled, but an address is provided: ",
            ).concat(addr.to_text().as_str()),
            ConfigError::DuplicateService(name) => String::from_str("service '").concat(
                name.as_str(),
            ).concat("' is configured twice"),
        }
    }
}

/// The identity of the backend with the short name `key` under the local
/// domain `local_tld`: the two joined by a dot, and a closing dot.
pub open spec fn backend_name(key: Seq<char>, local_tld: Seq<char>) -> Seq<char> {
    key + "."@ + local_tld + "."@
}

/// No two of the first `n` backends have the same short name.
pub open spec fn distinct_keys(services: Seq<(String, Domain)>, n: int) -> bool {
    forall|i: int, j: int| 0 <= i < j < n ==> services[i].0@ != services[j].0@
}

/// The index of the first backend that repeats an earlier one's short
/// name; `None` where every short name occurs once.
pub fn find_duplicate(services: &Vec<(String, Domain)>) -> (found: Option<usize>)
    ensures
        match found {
            Some(j) => j < services.len() && distinct_keys(services@, j as int) && exists|i: int|
                0 <= i < j && services[i].0@ == services[j as int].0@,
            None => distinct_keys(services@, services.len() as int),
        },
{
    let mut j: usize = 0;
    while j < services.len()
        invariant
            j <= services.len(),
            distinct_keys(services@, j as int),
        decreases services.len() - j,
    {
        let mut i: usize = 0;
        while i < j
            invariant
                i <= j < services.len(),
                distinct_keys(services@, j as int),
                forall|k: int| 0 <= k < i ==> services[k].0@ != services[j as int].0@,
            decreases j - i,
        {
            if services[i].0 == services[j].0 {
                assert(services[i as int].0@ == services[j as int].0@);
                return Some(j);
            }
            i += 1;
        }
        j += 1;
    }
    None
}

impl Config {
    /// The local domain where none is configured: `local`.
    pub fn default_local_tld() -> (tld: String)
        ensures
            tld@ == "local"@,
    {
        String::from_str("local")
    }

    /// Backend `i` has the identity made of its short name in the file and
    /// the local domain, and is described as in the file.
    pub open spec fn service_from(self, file: ConfigFile, i: int) -> bool {
        &&& self.services[i].0@ == backend_name(file.services[i].0@, file.local_tld@)
        &&& self.services[i].1 == file.services[i].1
    }

    /// The configuration is what the file describes: the same listeners,
    /// local domain and DNS provider, the administration address that the
    /// file's settings resolve to, the backends in the file's order, each
    /// under its identity, and one route for each backend, in that order.
    pub open spec fn loaded_from(self, file: ConfigFile) -> bool {
        &&& self.listeners == file.listen
        &&& file.admin.resolved() == Ok::<Option<SocketAddr>, SocketAddr>(self.admin)
        &&& self.local_tld@ == file.local_tld@
        &&& self.dyn_dns == file.dyn_dns
        &&& self.services@.len() == file.services@.len()
        &&& forall|i: int| 0 <= i < self.services@.len() ==> self.service_from(file, i)
        &&& self.wf()
    }

    /// No two backends have the same identity.
    pub open spec fn distinct_names(self) -> bool {
        forall|i: int, j: int|
            0 <= i < j < self.services@.len() ==> self.services@[i].0@ != self.services@[j].0@
    }

    /// The routes are those of the backends, in the backends' order, and no
    /// two backends have the same identity.
    pub open spec fn wf(self) -> bool {
        &&& self.routes@.len() == self.services@.len()
        &&& forall|i: int|
            0 <= i < self.services@.len() ==> #[trigger] self.routes@[i] == (
                self.services@[i].1.recognize@,
                self.services@[i].0@,
            )
        &&& self.distinct_names()
    }

    /// The configuration that a parsed file describes. A file that
    /// disables the administration server and gives it an address is
    /// refused, and so is one that names a backend twice; the first applies
    /// where both do.
    pub fn load(file: ConfigFile) -> (loaded: Result<Config, ConfigError>)
        ensures
            match loaded {
                Ok(config) => config.loaded_from(file),
                Err(ConfigError::AdminDisabledWithAddress(addr)) => file.admin.resolved() == Err::<
                    Option<SocketAddr>,
                    SocketAddr,
                >(addr),
                Err(ConfigError::DuplicateService(name)) => file.admin.resolved().is_ok()
                    && exists|i: int, j: int|
                    0 <= i < j < file.services@.len() && file.services@[i].0@ == name@
                        && file.services@[j].0@ == name@,
            },
            loaded.is_ok() <==> file.admin.resolved().is_ok() && distinct_keys(
                file.services@,
                file.services@.len() as int,
            ),
    {
        let admin = match file.admin.resolve() {
            Ok(admin) => admin,
            Err(addr) => {
                return Err(ConfigError::AdminDisabledWithAddress(addr));
            },
        };
        if let Some(j) = find_duplicate(&file.services) {
            return Err(ConfigError::DuplicateService(file.services[j].0.clone()));
        }
        let mut services: Vec<(Name, Domain)> = Vec::new();
        let mut routes: Vec<(Recognize, Name)> = Vec::new();
        let mut i: usize = 0;
        while i < file.services.len()
            invariant
                i <= file.services@.len(),
                services@.len() == i,
                routes@.len() == i,
                forall|k: int|
                    0 <= k < i ==> (#[trigger] services@[k]).0@ == backend_name(
                        file.services@[k].0@,
                        file.local_tld@,
                    ) && services@[k].1 == file.services@[k].1,
                forall|k: int|
                    0 <= k < i ==> (#[trigger] routes@[k]).0 == services@[k].1.recognize
                        && routes@[k].1@ == services@[k].0@,
            decreases file.services@.len() - i,
        {
            let name = String::from_str(file.services[i].0.as_str()).concat(".").concat(
                file.local_tld.as_str(),
            ).concat(".");
            let domain = file.services[i].1.clone();
            routes.push((domain.recognize.clone(), name.clone()));
            services.push((name, domain));
            i += 1;
        }
        let routes = RoutingTable::from_iter(routes);
        let config = Config {
            local_tld: file.local_tld,
            services,
            dyn_dns: file.dyn_dns,
            listeners: file.listen,
            admin,
            routes,
        };
        proof {
            assert forall|a: int, b: int| 0 <= a < b < config.services@.len() implies config.services@[a].0@
                != config.services@[b].0@ by {
                let ka = file.services@[a].0@;
                let kb = file.services@[b].0@;
                let suffix = "."@ + file.local_tld@ + "."@;
                assert(ka != kb);
                assert(config.services@[a].0@ =~= ka + suffix);
                assert(config.services@[b].0@ =~= kb + suffix);
                if ka + suffix == kb + suffix {
                    lemma_same_suffix(ka, kb, suffix);
                }
            }
        }
        Ok(config)
    }
}

} // verus!
