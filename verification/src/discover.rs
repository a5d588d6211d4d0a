//! Discovery: where each configured backend currently lives.
//!
//! One browse runs for each distinct service type of the configuration.
//! Whoever runs the browses hands each event to [`MdnsDiscover::handle_event`],
//! which publishes it to the watch of the backend that it names.

use vstd::prelude::*;
use vstd::string::StringExecFns;
use crate::addr::{IpAddr, SocketAddr};
use crate::config::{Config, Domain};
use crate::text::lemma_same_suffix;

verus! {

/// The identity of a configured backend: its short name, a dot, the local
/// domain and a closing dot.
pub type Name = String;

/// The backend is configured but no advertisement of it is live.
#[derive(Clone, Copy, Debug, Default)]
pub struct NotResolved;

/// The name belongs to no configured backend.
#[derive(Clone, Debug)]
pub struct NotConfigured(pub Name);

impl NotResolved {
    /// What the error says of itself.
    pub fn message(&self) -> (text: String)
        ensures
            text@ == "no mDNS service discovered for this domain"@,
    {
        String::from_str("no mDNS service discovered for this domain")
    }
}

impl NotConfigured {
    /// What the error says of itself: it names the backend.
    pub fn message(&self) -> (text: String)
        ensures
            text@ == "mDNS service '"@ + self.0@ + "' not in configured domains"@,
    {
        String::from_str("mDNS service '").concat(self.0.as_str()).concat(
            "' not in configured domains",
        )
    }
}

/// What an advertisement says of a service.
#[derive(Debug)]
pub struct ServiceInfo {
    /// The host that offers the service.
    pub hostname: String,
    /// The addresses of that host, in the order in which they are to be
    /// preferred.
    pub addresses: Vec<IpAddr>,
    /// The port of the service.
    pub port: u16,
}

/// An advertisement as a value of mathematics.
pub struct ServiceInfoView {
    pub hostname: Seq<char>,
    pub addresses: Seq<IpAddr>,
    pub port: u16,
}

impl View for ServiceInfo {
    type V = ServiceInfoView;

    open spec fn view(&self) -> ServiceInfoView {
        ServiceInfoView { hostname: self.hostname@, addresses: self.addresses@, port: self.port }
    }
}

/// What a browse reports.
#[derive(Debug)]
pub enum ServiceEvent {
    /// A service was resolved.
    ServiceResolved(ServiceInfo),
    /// A service was withdrawn; holds its service type and its host.
    ServiceRemoved(String, String),
    /// Anything else that a browse reports.
    Other,
}

/// An event as a value of mathematics.
pub enum EventView {
    ServiceResolved(ServiceInfoView),
    ServiceRemoved(Seq<char>, Seq<char>),
    Other,
}

impl View for ServiceEvent {
    type V = EventView;

    open spec fn view(&self) -> EventView {
        match *self {
            ServiceEvent::ServiceResolved(info) => EventView::ServiceResolved(info@),
            ServiceEvent::ServiceRemoved(kind, name) => EventView::ServiceRemoved(kind@, name@),
            ServiceEvent::Other => EventView::Other,
        }
    }
}

/// Where a backend lives: an address and the name under which it was
/// advertised.
#[derive(Debug)]
pub struct Discovered {
    pub addr: SocketAddr,
    pub name: String,
}

/// A resolved backend as a value of mathematics.
pub struct DiscoveredView {
    pub addr: SocketAddr,
    pub name: Seq<char>,
}

impl View for Discovered {
    type V = DiscoveredView;

    open spec fn view(&self) -> DiscoveredView {
        DiscoveredView { addr: self.addr, name: self.name@ }
    }
}

impl Clone for Discovered {
    fn clone(&self) -> (copy: Self)
        ensures
            copy == *self,
    {
        Discovered { addr: self.addr, name: self.name.clone() }
    }
}

/// The view of an optional resolved backend.
pub open spec fn opt_discovered(value: Option<Discovered>) -> Option<DiscoveredView> {
    match value {
        Some(discovered) => Some(discovered@),
        None => None,
    }
}

/// Where an advertisement says the backend `name` lives: at the first of
/// the advertised addresses; nowhere where it advertises none.
pub open spec fn discovered_from(info: ServiceInfoView, name: Seq<char>) -> Option<DiscoveredView> {
    if info.addresses.len() == 0 {
        None
    } else {
        Some(DiscoveredView { addr: SocketAddr { ip: info.addresses[0], port: info.port }, name })
    }
}

impl Discovered {
    /// Where an advertisement says the backend `name` lives.
    pub fn from_service_info(info: &ServiceInfo, name: &str) -> (found: Option<Self>)
        ensures
            opt_discovered(found) == discovered_from(info@, name@),
    {
        if info.addresses.len() == 0 {
            return None;
        }
        let addr = SocketAddr { ip: info.addresses[0], port: info.port };
        Some(Self { addr, name: String::from_str(name) })
    }

    /// The address to connect to.
    pub fn param(&self) -> (addr: SocketAddr)
        ensures
            addr == self.addr,
    {
        self.addr
    }
}

#[verifier::external_type_specification]
#[verifier::external_body]
pub struct ExRandomState(ahash::RandomState);

#[verifier::external_type_specification]
#[verifier::external_body]
#[verifier::reject_recursive_types(K)]
#[verifier::reject_recursive_types(V)]
#[verifier::reject_recursive_types(S)]
pub struct ExAHashMap<K, V, S>(ahash::AHashMap<K, V, S>);

/// What an index of names holds: the number that stands under each name.
pub uninterp spec fn index_entries(index: ahash::AHashMap<String, usize>) -> Map<Seq<char>, usize>;

/// The index that holds nothing.
pub open spec fn no_entries() -> Map<Seq<char>, usize> {
    Map::empty()
}

/// Calls `ahash::AHashMap::new`: a map that holds nothing.
#[verifier::external_body]
fn index_new() -> (index: ahash::AHashMap<String, usize>)
    ensures
        index_entries(index) == no_entries(),
{
    ahash::AHashMap::new()
}

/// Calls `ahash::AHashMap::insert`: afterwards `name` stands for `slot`
/// and every other name for what it stood for before; hands back what
/// `name` stood for before.
#[verifier::external_body]
fn index_insert(index: &mut ahash::AHashMap<String, usize>, name: String, slot: usize) -> (before:
    Option<usize>)
    ensures
        index_entries(*final(index)) == index_entries(*old(index)).insert(name@, slot),
        before == index_lookup(index_entries(*old(index)), name@),
{
    index.insert(name, slot)
}

/// Calls `ahash::AHashMap::get`: what `name` stands for, `None` where the
/// map does not hold it.
#[verifier::external_body]
fn index_get(index: &ahash::AHashMap<String, usize>, name: &str) -> (slot: Option<usize>)
    ensures
        slot == index_lookup(index_entries(*index), name@),
{
    match index.get(name) {
        Some(slot) => Some(*slot),
        None => None,
    }
}

/// What `name` stands for in `entries`; `None` where it is not held.
pub open spec fn index_lookup(entries: Map<Seq<char>, usize>, name: Seq<char>) -> Option<usize> {
    if entries.contains_key(name) {
        Some(entries[name])
    } else {
        None
    }
}

/// The cell of one backend: the latest that discovery said of it.
#[derive(Debug)]
pub struct DiscoveryWatch {
    name: Name,
    value: Option<Discovered>,
    version: u64,
}

/// A cell as a value of mathematics: the backend, where it lives, and how
/// often that has been published, counted modulo two to the power of 64.
pub struct WatchView {
    pub name: Seq<char>,
    pub value: Option<DiscoveredView>,
    pub version: u64,
}

impl View for DiscoveryWatch {
    type V = WatchView;

    closed spec fn view(&self) -> WatchView {
        WatchView { name: self.name@, value: opt_discovered(self.value), version: self.version }
    }
}

/// The count that follows `version`.
pub open spec fn next_version(version: u64) -> u64 {
    if version == u64::MAX {
        0
    } else {
        (version + 1) as u64
    }
}

impl WatchView {
    /// The cell after `value` has been published to it.
    pub open spec fn published(self, value: Option<DiscoveredView>) -> WatchView {
        WatchView { name: self.name, value, version: next_version(self.version) }
    }
}

impl DiscoveryWatch {
    /// The cell of the backend `name`, which says that it is unresolved.
    pub fn new(name: Name) -> (watch: DiscoveryWatch)
        ensures
            watch@ == (WatchView { name: name@, value: None, version: 0 }),
    {
        DiscoveryWatch { name, value: None, version: 0 }
    }

    /// Puts `value` in the place of what the cell said.
    pub fn send_replace(&mut self, value: Option<Discovered>)
        ensures
            final(self)@ == old(self)@.published(opt_discovered(value)),
    {
        self.value = value;
        self.version = if self.version == u64::MAX {
            0
        } else {
            self.version + 1
        };
    }

    /// Where the backend lives, as far as it is known.
    pub fn borrow(&self) -> (value: &Option<Discovered>)
        ensures
            opt_discovered(*value) == self@.value,
    {
        &self.value
    }

    /// How often the cell has been published to, modulo two to the power
    /// of 64. A reader that remembers the number sees from it whether
    /// something was published since.
    pub fn version(&self) -> (version: u64)
        ensures
            version == self@.version,
    {
        self.version
    }

    /// The backend whose cell this is.
    pub fn name(&self) -> (name: &Name)
        ensures
            name@ == self@.name,
    {
        &self.name
    }
}

/// A reader's handle on the cell of one backend.
#[derive(Clone, Copy, Debug, PartialEq, Eq, Structural, Hash)]
pub struct Receiver {
    pub slot: usize,
}

/// One browse: a service type and the backends that are advertised under
/// it.
pub struct Browse {
    service_type: String,
    watches: ahash::AHashMap<String, usize>,
}

/// A browse as a value of mathematics: the service type, and the slot of
/// each backend that is advertised under it.
pub struct BrowseView {
    pub service_type: Seq<char>,
    pub watches: Map<Seq<char>, usize>,
}

impl View for Browse {
    type V = BrowseView;

    closed spec fn view(&self) -> BrowseView {
        BrowseView { service_type: self.service_type@, watches: index_entries(self.watches) }
    }
}

/// The service type to browse for backends of the configured service type
/// `service` under the local domain `local_tld`: the two joined by a dot,
/// and a closing dot.
pub open spec fn browse_type(service: Seq<char>, local_tld: Seq<char>) -> Seq<char> {
    service + "."@ + local_tld + "."@
}

/// The cell that an event is for, and what the event says of it: a
/// resolution or a removal is for the backend that it names, where the
/// browse knows that backend; every other event is for none.
pub open spec fn event_target(browse: BrowseView, event: EventView) -> Option<
    (usize, Option<DiscoveredView>),
> {
    match event {
        EventView::ServiceResolved(info) => if browse.watches.contains_key(info.hostname) {
            Some((browse.watches[info.hostname], discovered_from(info, info.hostname)))
        } else {
            None
        },
        EventView::ServiceRemoved(_, name) => if browse.watches.contains_key(name) {
            Some((browse.watches[name], None))
        } else {
            None
        },
        EventView::Other => None,
    }
}

/// The cells after a browse has reported an event: the cell that the event
/// is for holds what the event says, and every other cell is as before.
pub open spec fn apply_event(cells: Seq<WatchView>, browse: BrowseView, event: EventView) -> Seq<
    WatchView,
> {
    match event_target(browse, event) {
        Some((slot, value)) => if slot < cells.len() {
            cells.update(slot as int, cells[slot as int].published(value))
        } else {
            cells
        },
        None => cells,
    }
}

/// The registry of discovery: one cell for each configured backend, and
/// one browse for each distinct service type.
pub struct MdnsDiscover {
    domains: ahash::AHashMap<String, usize>,
    cells: Vec<DiscoveryWatch>,
    browses: Vec<Browse>,
}

/// The view of a list of cells.
pub open spec fn cells_view(cells: Seq<DiscoveryWatch>) -> Seq<WatchView> {
    Seq::new(cells.len(), |i: int| cells[i]@)
}

/// The view of a list of browses.
pub open spec fn browses_view(browses: Seq<Browse>) -> Seq<BrowseView> {
    Seq::new(browses.len(), |i: int| browses[i]@)
}

/// The index holds some name.
pub open spec fn holds_some(entries: Map<Seq<char>, usize>) -> bool {
    exists|name: Seq<char>| entries.contains_key(name)
}

/// Service `k` of the configuration has cell `k` and is known to the
/// browse of its service type.
pub open spec fn service_placed(
    services: Seq<(Name, Domain)>,
    local_tld: Seq<char>,
    names: Map<Seq<char>, usize>,
    browses: Seq<BrowseView>,
    k: int,
) -> bool {
    &&& names.contains_key(services[k].0@)
    &&& names[services[k].0@] == k
    &&& exists|b: int|
        0 <= b < browses.len() && (#[trigger] browses[b]).service_type == browse_type(
            services[k].1.service@,
            local_tld,
        ) && browses[b].watches.contains_key(services[k].0@)
}

/// Service `k` of the configuration has the name `name` and the service
/// type of the browse `browse`.
pub open spec fn is_service_of(
    services: Seq<(Name, Domain)>,
    local_tld: Seq<char>,
    browse: BrowseView,
    name: Seq<char>,
    k: int,
) -> bool {
    &&& 0 <= k < services.len()
    &&& services[k].0@ == name
    &&& browse_type(services[k].1.service@, local_tld) == browse.service_type
    &&& browse.watches[name] == k
}

/// Service `k` is the first of the configuration that is advertised
/// under `service_type`.
pub open spec fn is_first_of_type(
    services: Seq<(Name, Domain)>,
    local_tld: Seq<char>,
    service_type: Seq<char>,
    k: int,
) -> bool {
    &&& 0 <= k < services.len()
    &&& browse_type(services[k].1.service@, local_tld) == service_type
    &&& forall|j: int|
        0 <= j < k ==> browse_type((#[trigger] services[j]).1.service@, local_tld) != service_type
}

/// The place of the first service of the configuration that is advertised
/// under `service_type`.
pub open spec fn first_of_type(
    services: Seq<(Name, Domain)>,
    local_tld: Seq<char>,
    service_type: Seq<char>,
) -> int {
    choose|k: int| is_first_of_type(services, local_tld, service_type, k)
}

/// Only one service is the first of its type.
pub proof fn lemma_first_of_type(
    services: Seq<(Name, Domain)>,
    local_tld: Seq<char>,
    service_type: Seq<char>,
    k: int,
)
    requires
        is_first_of_type(services, local_tld, service_type, k),
    ensures
        first_of_type(services, local_tld, service_type) == k,
{
    let f = first_of_type(services, local_tld, service_type);
    assert(is_first_of_type(services, local_tld, service_type, f));
    if f < k {
        assert(browse_type(services[f].1.service@, local_tld) != service_type);
    } else if k < f {
        assert(browse_type(services[k].1.service@, local_tld) != service_type);
    }
}

impl MdnsDiscover {
    /// The slot of each configured backend.
    pub closed spec fn names(&self) -> Map<Seq<char>, usize> {
        index_entries(self.domains)
    }

    /// The cells, by slot.
    pub closed spec fn watches(&self) -> Seq<WatchView> {
        cells_view(self.cells@)
    }

    /// The browses.
    pub closed spec fn browses(&self) -> Seq<BrowseView> {
        browses_view(self.browses@)
    }

    /// Names and cells belong together one to one, each browse knows its
    /// backends by the slots of their cells, and no two browses have the
    /// same service type.
    pub open spec fn wf(&self) -> bool {
        &&& forall|name: Seq<char>| #[trigger]
            self.names().contains_key(name) ==> self.names()[name] < self.watches().len()
                && self.watches()[self.names()[name] as int].name == name
        &&& forall|slot: int|
            0 <= slot < self.watches().len() ==> self.names().contains_key(
                (#[trigger] self.watches()[slot]).name,
            ) && self.names()[self.watches()[slot].name] == slot
        &&& forall|b: int, name: Seq<char>|
            0 <= b < self.browses().len() && (#[trigger] self.browses()[b].watches.contains_key(
                name,
            )) ==> self.names().contains_key(name) && self.browses()[b].watches[name]
                == self.names()[name]
        &&& forall|b: int, c: int|
            0 <= b < c < self.browses().len() ==> (#[trigger] self.browses()[b]).service_type != (
            #[trigger] self.browses()[c]).service_type
    }

    /// The registry is laid out for the given configuration: each backend
    /// has the cell of its place in the configuration; the names are those
    /// of the backends; each backend is known to the browse of its service
    /// type, and each browse knows only backends of its service type; the
    /// browses are in the order in which their service types first occur
    /// in the configuration. Events do not change this.
    pub open spec fn configured_by(&self, config: Config) -> bool {
        let services = config.services@;
        let tld = config.local_tld@;
        &&& self.watches().len() == services.len()
        &&& forall|k: int|
            0 <= k < services.len() ==> (#[trigger] self.watches()[k]).name == services[k].0@
        &&& forall|k: int|
            0 <= k < services.len() ==> #[trigger] service_placed(
                services,
                tld,
                self.names(),
                self.browses(),
                k,
            )
        &&& forall|b: int, name: Seq<char>|
            0 <= b < self.browses().len() && (#[trigger] self.browses()[b].watches.contains_key(
                name,
            )) ==> exists|k: int| #[trigger]
                is_service_of(services, tld, self.browses()[b], name, k)
        &&& forall|b: int|
            0 <= b < self.browses().len() ==> holds_some((#[trigger] self.browses()[b]).watches)
        &&& forall|b: int|
            0 <= b < self.browses().len() ==> is_first_of_type(
                services,
                tld,
                (#[trigger] self.browses()[b]).service_type,
                first_of_type(services, tld, self.browses()[b].service_type),
            )
        &&& forall|b: int, c: int|
            0 <= b < c < self.browses().len() ==> first_of_type(
                services,
                tld,
                (#[trigger] self.browses()[b]).service_type,
            ) < first_of_type(services, tld, (#[trigger] self.browses()[c]).service_type)
    }

    /// The registry is as it is made for the given configuration: laid out
    /// for it, with every backend unresolved and nothing published yet.
    pub open spec fn built_from(&self, config: Config) -> bool {
        &&& self.configured_by(config)
        &&& forall|k: int|
            0 <= k < self.watches().len() ==> (#[trigger] self.watches()[k]).value.is_none()
                && self.watches()[k].version == 0
    }

    /// The registry of a configuration in which no two backends have the
    /// same name: one cell for each backend, unresolved, and one browse for
    /// each distinct service type, in the order in which the types first
    /// occur.
    pub fn new(config: &Config) -> (discover: MdnsDiscover)
        requires
            config.distinct_names(),
        ensures
            discover.wf(),
            discover.built_from(*config),
    {
        let mut domains = index_new();
        let mut types = index_new();
        let mut cells: Vec<DiscoveryWatch> = Vec::new();
        let mut browses: Vec<Browse> = Vec::new();
        let ghost mut raws: Seq<Seq<char>> = Seq::empty();
        let ghost mut firsts: Seq<int> = Seq::empty();
        let ghost services = config.services@;
        let ghost tld = config.local_tld@;
        let mut i: usize = 0;
        while i < config.services.len()
            invariant
                services == config.services@,
                tld == config.local_tld@,
                config.distinct_names(),
                i <= services.len(),
                cells@.len() == i,
                browses@.len() == raws.len(),
                firsts.len() == raws.len(),
                forall|b: int|
                    0 <= b < raws.len() ==> 0 <= (#[trigger] firsts[b]) < i
                        && services[firsts[b]].1.service@ == raws[b],
                forall|b: int, j: int|
                    0 <= b < raws.len() && 0 <= j < firsts[b] ==> (#[trigger] services[j]).1.service@
                        != #[trigger] raws[b],
                forall|b: int, c: int|
                    0 <= b < c < raws.len() ==> (#[trigger] firsts[b]) < (#[trigger] firsts[c]),
                forall|k: int|
                    0 <= k < i ==> (#[trigger] cells@[k])@ == (WatchView {
                        name: services[k].0@,
                        value: None,
                        version: 0,
                    }),
                forall|name: Seq<char>| #[trigger]
                    index_entries(domains).contains_key(name) ==> index_entries(domains)[name] < i
                        && services[index_entries(domains)[name] as int].0@ == name,
                forall|k: int|
                    0 <= k < i ==> index_entries(domains).contains_key(
                        (#[trigger] services[k]).0@,
                    ) && index_entries(domains)[services[k].0@] == k,
                forall|b: int|
                    0 <= b < raws.len() ==> index_entries(types).contains_key(#[trigger] raws[b])
                        && index_entries(types)[raws[b]] == b && browses@[b].service_type@
                        == browse_type(raws[b], tld),
                forall|raw: Seq<char>| #[trigger]
                    index_entries(types).contains_key(raw) ==> index_entries(types)[raw]
                        < raws.len() && raws[index_entries(types)[raw] as int] == raw,
                forall|k: int|
                    0 <= k < i ==> index_entries(types).contains_key(
                        (#[trigger] services[k]).1.service@,
                    ) && index_entries(
                        browses@[index_entries(types)[services[k].1.service@] as int].watches,
                    ).contains_key(services[k].0@),
                forall|b: int, name: Seq<char>|
                    0 <= b < raws.len() && (#[trigger] index_entries(
                        browses@[b].watches,
                    ).contains_key(name)) ==> {
                        let k = index_entries(browses@[b].watches)[name];
                        k < i && services[k as int].0@ == name && services[k as int].1.service@
                            == raws[b]
                    },
                forall|b: int|
                    0 <= b < raws.len() ==> holds_some(
                        index_entries((#[trigger] browses@[b]).watches),
                    ),
            decreases services.len() - i,
        {
            let name = config.services[i].0.clone();
            let service = &config.services[i].1.service;
            let slot = cells.len();
            cells.push(DiscoveryWatch::new(name.clone()));
            let b = match index_get(&types, service.as_str()) {
                Some(b) => b,
                None => {
                    let b = browses.len();
                    let service_type = String::from_str(service.as_str()).concat(".").concat(
                        config.local_tld.as_str(),
                    ).concat(".");
                    browses.push(Browse { service_type, watches: index_new() });
                    let _ = index_insert(&mut types, service.clone(), b);
                    proof {
                        assert forall|j: int| 0 <= j < i implies (#[trigger] services[j]).1.service@
                            != service@ by {
                            assert(index_entries(types).contains_key(services[j].1.service@));
                        }
                        raws = raws.push(service@);
                        firsts = firsts.push(i as int);
                    }
                    b
                },
            };
            let ghost before = browses@;
            let _ = index_insert(&mut browses[b].watches, name.clone(), slot);
            let _ = index_insert(&mut domains, name, slot);
                proof {
                assert(forall|c: int|
                    0 <= c < before.len() && c != b ==> browses@[c] == before[c]);
                assert(browses@[b as int].service_type == before[b as int].service_type);
                assert(index_entries(browses@[b as int].watches).contains_key(services[i as int].0@));
                assert forall|k: int| 0 <= k < i + 1 implies index_entries(types).contains_key(
                    (#[trigger] services[k]).1.service@,
                ) && index_entries(
                    browses@[index_entries(types)[services[k].1.service@] as int].watches,
                ).contains_key(services[k].0@) by {
                    if k < i {
                        let c = index_entries(types)[services[k].1.service@] as int;
                        if c != b {
                            assert(browses@[c] == before[c]);
                        }
                    }
                }
                assert forall|c: int, other: Seq<char>|
                    0 <= c < raws.len() && (#[trigger] index_entries(
                        browses@[c].watches,
                    ).contains_key(other)) implies {
                    let k = index_entries(browses@[c].watches)[other];
                    k < i + 1 && services[k as int].0@ == other && services[k as int].1.service@
                        == raws[c]
                } by {
                    if c != b {
                        assert(browses@[c] == before[c]);
                        assert(index_entries(before[c].watches).contains_key(other));
                    } else if other != services[i as int].0@ {
                        assert(index_entries(before[c].watches).contains_key(other));
                    }
                }
                assert forall|c: int| 0 <= c < raws.len() implies holds_some(
                    index_entries((#[trigger] browses@[c]).watches),
                ) by {
                    if c != b {
                        assert(browses@[c] == before[c]);
                    } else {
                        assert(index_entries(browses@[c].watches).contains_key(services[i as int].0@));
                    }
                }
            }
            i += 1;
        }
        let discover = MdnsDiscover { domains, cells, browses };
        proof {
            assert forall|b: int, c: int| 0 <= b < c < discover.browses().len() implies (
            #[trigger] discover.browses()[b]).service_type != (
            #[trigger] discover.browses()[c]).service_type by {
                let suffix = "."@ + tld + "."@;
                assert(browse_type(raws[b], tld) =~= raws[b] + suffix);
                assert(browse_type(raws[c], tld) =~= raws[c] + suffix);
                if raws[b] + suffix == raws[c] + suffix {
                    lemma_same_suffix(raws[b], raws[c], suffix);
                }
            }
            assert forall|b: int| 0 <= b < discover.browses().len() implies is_first_of_type(
                services,
                tld,
                (#[trigger] discover.browses()[b]).service_type,
                firsts[b],
            ) by {
                let suffix = "."@ + tld + "."@;
                assert forall|j: int| 0 <= j < firsts[b] implies browse_type(
                    (#[trigger] services[j]).1.service@,
                    tld,
                ) != discover.browses()[b].service_type by {
                    let raw = services[j].1.service@;
                    assert(raw != raws[b]);
                    assert(browse_type(raw, tld) =~= raw + suffix);
                    assert(browse_type(raws[b], tld) =~= raws[b] + suffix);
                    if raw + suffix == raws[b] + suffix {
                        lemma_same_suffix(raw, raws[b], suffix);
                    }
                }
            }
            assert forall|b: int| 0 <= b < discover.browses().len() implies first_of_type(
                services,
                tld,
                (#[trigger] discover.browses()[b]).service_type,
            ) == firsts[b] by {
                lemma_first_of_type(services, tld, discover.browses()[b].service_type, firsts[b]);
            }
            assert forall|k: int| 0 <= k < services.len() implies #[trigger] service_placed(
                services,
                tld,
                discover.names(),
                discover.browses(),
                k,
            ) by {
                let b = index_entries(types)[services[k].1.service@] as int;
                assert(discover.browses()[b].service_type == browse_type(
                    services[k].1.service@,
                    tld,
                ));
                assert(discover.browses()[b].watches.contains_key(services[k].0@));
            }
            assert forall|b: int, name: Seq<char>|
                0 <= b < discover.browses().len() && (
                #[trigger] discover.browses()[b].watches.contains_key(name)) implies exists|
                k: int,
            | #[trigger] is_service_of(services, tld, discover.browses()[b], name, k) by {
                let k = index_entries(discover.browses@[b].watches)[name] as int;
                assert(is_service_of(services, tld, discover.browses()[b], name, k));
            }
            assert forall|b: int| 0 <= b < discover.browses().len() implies holds_some(
                (#[trigger] discover.browses()[b]).watches,
            ) by {
                assert(holds_some(index_entries(discover.browses@[b].watches)));
            }
        }
        discover
    }
}

impl MdnsDiscover {
    /// The number of browses to run.
    pub fn browse_count(&self) -> (n: usize)
        ensures
            n == self.browses().len(),
    {
        self.browses.len()
    }

    /// The service type to browse for in browse `browse`.
    pub fn service_type(&self, browse: usize) -> (service_type: &String)
        requires
            browse < self.browses().len(),
        ensures
            service_type@ == self.browses()[browse as int].service_type,
    {
        &self.browses[browse].service_type
    }

    /// The number of cells.
    pub fn len(&self) -> (n: usize)
        ensures
            n == self.watches().len(),
    {
        self.cells.len()
    }

    /// Whether `rx` is a handle on one of this registry's cells.
    pub open spec fn owns(&self, rx: Receiver) -> bool {
        rx.slot < self.watches().len()
    }

    /// Takes in an event that browse `browse` reported. A resolution of a
    /// backend that the browse knows publishes where the backend lives to
    /// the backend's cell, a removal publishes that it is unresolved;
    /// every other event, and every event about a host that the browse
    /// does not know, changes nothing. Hands back the handle of the cell
    /// that was published to.
    pub fn handle_event(&mut self, browse: usize, event: &ServiceEvent) -> (updated: Option<
        Receiver,
    >)
        requires
            old(self).wf(),
            browse < old(self).browses().len(),
        ensures
            final(self).wf(),
            final(self).names() == old(self).names(),
            final(self).browses() == old(self).browses(),
            final(self).watches() == apply_event(
                old(self).watches(),
                old(self).browses()[browse as int],
                event@,
            ),
            final(self).watches().len() == old(self).watches().len(),
            forall|slot: int|
                0 <= slot < old(self).watches().len() ==> (#[trigger] final(self).watches()[slot]).name
                    == old(self).watches()[slot].name,
            updated == match event_target(old(self).browses()[browse as int], event@) {
                Some((slot, _)) => Some(Receiver { slot }),
                None => None,
            },
    {
        let ghost target = event_target(self.browses()[browse as int], event@);
        let found: Option<(usize, Option<Discovered>)> = match event {
            ServiceEvent::ServiceResolved(info) => {
                match index_get(&self.browses[browse].watches, info.hostname.as_str()) {
                    Some(slot) => Some(
                        (slot, Discovered::from_service_info(info, info.hostname.as_str())),
                    ),
                    None => None,
                }
            },
            ServiceEvent::ServiceRemoved(_, name) => {
                match index_get(&self.browses[browse].watches, name.as_str()) {
                    Some(slot) => Some((slot, None)),
                    None => None,
                }
            },
            ServiceEvent::Other => None,
        };
        match found {
            Some((slot, value)) => {
                proof {
                    assert(target == Some((slot, opt_discovered(value))));
                    assert(slot < self.watches().len());
                }
                let ghost before = self.cells@;
                self.cells[slot].send_replace(value);
                proof {
                    assert(self.watches() =~= cells_view(before).update(
                        slot as int,
                        cells_view(before)[slot as int].published(opt_discovered(value)),
                    ));
                }
                Some(Receiver { slot })
            },
            None => None,
        }
    }

    /// The handle on the cell of the backend `name`; `NotConfigured` with
    /// the name where no backend has it.
    pub fn call(&self, name: &Name) -> (found: Result<Receiver, NotConfigured>)
        ensures
            match found {
                Ok(rx) => self.names().contains_key(name@) && rx.slot == self.names()[name@],
                Err(e) => !self.names().contains_key(name@) && e.0@ == name@,
            },
            self.wf() && found.is_ok() ==> self.owns(found.unwrap()),
    {
        match index_get(&self.domains, name.as_str()) {
            Some(slot) => Ok(Receiver { slot }),
            None => Err(NotConfigured(name.clone())),
        }
    }

    /// The cell that `rx` is a handle on.
    pub fn watch(&self, rx: &Receiver) -> (watch: &DiscoveryWatch)
        requires
            self.owns(*rx),
        ensures
            watch@ == self.watches()[rx.slot as int],
    {
        &self.cells[rx.slot]
    }

    /// Where the backend of the cell lives, as far as it is known.
    pub fn borrow(&self, rx: &Receiver) -> (value: Option<Discovered>)
        requires
            self.owns(*rx),
        ensures
            opt_discovered(value) == self.watches()[rx.slot as int].value,
    {
        self.cells[rx.slot].borrow().clone()
    }
}

/// The cells after the events of `events` have been taken in, in order;
/// each event comes with the number of the browse that reported it.
pub open spec fn replay(
    cells: Seq<WatchView>,
    browses: Seq<BrowseView>,
    events: Seq<(int, EventView)>,
) -> Seq<WatchView>
    decreases events.len(),
{
    if events.len() == 0 {
        cells
    } else {
        let (b, event) = events.last();
        apply_event(replay(cells, browses, events.drop_last()), browses[b], event)
    }
}

/// Event `k` of `events` is for the cell `slot`.
pub open spec fn is_for(
    browses: Seq<BrowseView>,
    events: Seq<(int, EventView)>,
    k: int,
    slot: usize,
) -> bool {
    event_target(browses[events[k].0], events[k].1) matches Some((s, _)) && s == slot
}

/// Taking in events neither adds nor removes cells, and leaves each cell
/// with its backend.
pub proof fn lemma_replay_keeps_cells(
    cells: Seq<WatchView>,
    browses: Seq<BrowseView>,
    events: Seq<(int, EventView)>,
)
    ensures
        replay(cells, browses, events).len() == cells.len(),
        forall|slot: int|
            0 <= slot < cells.len() ==> (#[trigger] replay(cells, browses, events)[slot]).name
                == cells[slot].name,
    decreases events.len(),
{
    if events.len() > 0 {
        lemma_replay_keeps_cells(cells, browses, events.drop_last());
    }
}

/// A cell shows what the last event for it said, whatever was said before
/// and whatever was said of other cells since: after a removal it shows
/// no address until a later resolution, and after two resolutions that of
/// the later.
pub proof fn law_watch_shows_last_event(
    cells: Seq<WatchView>,
    browses: Seq<BrowseView>,
    events: Seq<(int, EventView)>,
    k: int,
    slot: usize,
)
    requires
        slot < cells.len(),
        0 <= k < events.len(),
        is_for(browses, events, k, slot),
        forall|j: int| k < j < events.len() ==> !is_for(browses, events, j, slot),
    ensures
        replay(cells, browses, events)[slot as int].value == event_target(
            browses[events[k].0],
            events[k].1,
        ).unwrap().1,
    decreases events.len(),
{
    let rest = events.drop_last();
    lemma_replay_keeps_cells(cells, browses, rest);
    if k == events.len() - 1 {
    } else {
        assert(!is_for(browses, events, events.len() - 1, slot));
        assert(is_for(browses, rest, k, slot));
        assert forall|j: int| k < j < rest.len() implies !is_for(browses, rest, j, slot) by {
            assert(!is_for(browses, events, j, slot));
        }
        law_watch_shows_last_event(cells, browses, rest, k, slot);
    }
}

/// A cell for which no event came is as it was.
pub proof fn law_watch_untouched(
    cells: Seq<WatchView>,
    browses: Seq<BrowseView>,
    events: Seq<(int, EventView)>,
    slot: usize,
)
    requires
        slot < cells.len(),
        forall|j: int| 0 <= j < events.len() ==> !is_for(browses, events, j, slot),
    ensures
        replay(cells, browses, events)[slot as int] == cells[slot as int],
    decreases events.len(),
{
    if events.len() > 0 {
        let rest = events.drop_last();
        lemma_replay_keeps_cells(cells, browses, rest);
        assert(!is_for(browses, events, events.len() - 1, slot));
        assert forall|j: int| 0 <= j < rest.len() implies !is_for(browses, rest, j, slot) by {
            assert(!is_for(browses, events, j, slot));
        }
        law_watch_untouched(cells, browses, rest, slot);
    }
}

/// An event about a host that the browse does not know changes no cell.
pub proof fn law_unknown_host_is_ignored(
    cells: Seq<WatchView>,
    browse: BrowseView,
    info: ServiceInfoView,
    kind: Seq<char>,
)
    requires
        !browse.watches.contains_key(info.hostname),
    ensures
        apply_event(cells, browse, EventView::ServiceResolved(info)) == cells,
        apply_event(cells, browse, EventView::ServiceRemoved(kind, info.hostname)) == cells,
{
}

} // verus!
