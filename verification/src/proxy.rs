//! The gateway's pipeline: a request is routed to a backend, the backend is
//! looked up, the request is admitted, and what fails on the way is
//! answered.
//!
//! The pipeline decides; it does not talk to the network. Whoever runs it
//! sends the request to the endpoint that it names, and tells it how that
//! went.

use vstd::prelude::*;
use crate::addr::SocketAddr;
use crate::cache::{agrees, lemma_discovered_agrees, CacheView, DiscoveryCache};
use crate::config::Config;
use crate::discover::{
    apply_event, event_target, service_placed, Discovered, DiscoveredView, MdnsDiscover, Name,
    NotResolved, Receiver, ServiceEvent,
};
use crate::error::{Error, ErrorView};
use crate::http::client::{client_for, Client, NewClient};
use crate::http::error_respond::{ContentType, ExtractRespond, HttpRescue, Reply};
use crate::http::header_from_target::{forwarded, forwarded_of, opt_header};
use crate::http::{RequestHead, RequestView, Response, ResponseView, Route, ServerRescue};
use crate::queue::{Admission, AdmissionQueue, AdmissionTicket, QueueView};
use crate::route::{is_selected, route_of};
use crate::serve::Accepted;

verus! {

/// Where a request is sent: the address to connect to, the authority to
/// name in the request, and the client to send it through.
#[derive(Debug)]
pub struct Endpoint {
    pub addr: SocketAddr,
    pub authority: String,
    pub client: Client,
}

/// An endpoint as a value of mathematics.
pub struct EndpointView {
    pub addr: SocketAddr,
    pub authority: Seq<char>,
    pub client: Client,
}

impl View for Endpoint {
    type V = EndpointView;

    open spec fn view(&self) -> EndpointView {
        EndpointView { addr: self.addr, authority: self.authority@, client: self.client }
    }
}

/// A request that may go to its backend.
#[derive(Debug)]
pub struct Admitted {
    /// Where the backend lives.
    pub target: Discovered,
    /// The handle on the backend's cell.
    pub rx: Receiver,
    /// The request's place in the backend's queue.
    pub ticket: AdmissionTicket,
}

/// What is to be done with a request.
#[derive(Debug)]
pub enum Served {
    /// Send it to `endpoint`, with the header `forwarded` where there is
    /// one, and report how that went under `rx` and `ticket`.
    Forward {
        endpoint: Endpoint,
        forwarded: Option<(String, String)>,
        rx: Receiver,
        ticket: AdmissionTicket,
    },
    /// Answer it with `response`, and close the client's connection
    /// afterwards where `close_client` says so.
    Reply { response: Response, close_client: bool },
    /// Drop the connection: the error admits of no response.
    Fail(Error),
}

/// The gateway's pipeline and its state.
pub struct Proxy {
    config: Config,
    discover: MdnsDiscover,
    cache: DiscoveryCache,
    queues: Vec<AdmissionQueue>,
    clients: NewClient,
}

/// The view of a list of queues.
pub open spec fn queues_view(queues: Seq<AdmissionQueue>) -> Seq<QueueView> {
    Seq::new(queues.len(), |i: int| queues[i]@)
}

/// Where a request for a backend that lives at `target` is sent: to the
/// backend's address, under the authority of the request's target, else
/// that of its `Host` header, else the name under which the backend was
/// advertised; through the backend's client where that is to the same
/// address, else through a new one. `current` is the address of the
/// backend's client, if it has one.
pub open spec fn endpoint_of(
    target: DiscoveredView,
    req: RequestView,
    current: Option<SocketAddr>,
) -> EndpointView {
    EndpointView {
        client: client_for(current, target.addr),
        addr: target.addr,
        authority: match req.authority {
            Some(authority) => authority,
            None => match req.host {
                Some(host) => host,
                None => target.name,
            },
        },
    }
}

/// What the client is told of an error, for a request of the given head:
/// the response that the gateway's strategy makes up, in the request's
/// version and accepted representation, and whether the client's
/// connection is to be closed; `None` where the strategy lets the error
/// pass.
pub open spec fn answer_of(error: ErrorView, req: RequestView) -> Option<(ResponseView, bool)> {
    match ServerRescue.rescued(error) {
        Some(synthetic) => Some(
            (
                synthetic.http_response(req.version, ContentType::negotiated(req.accept)),
                synthetic.close_connection && req.client.is_some(),
            ),
        ),
        None => None,
    }
}

impl Proxy {
    /// The configuration.
    pub closed spec fn config(&self) -> Config {
        self.config
    }

    /// The registry of discovery.
    pub closed spec fn registry(&self) -> MdnsDiscover {
        self.discover
    }

    /// The cache of discovery handles.
    pub closed spec fn cache(&self) -> CacheView {
        self.cache@
    }

    /// The admission queues, one for each cell of the registry.
    pub closed spec fn queues(&self) -> Seq<QueueView> {
        queues_view(self.queues@)
    }

    /// The address of each backend's client, for each cell of the
    /// registry.
    pub closed spec fn clients(&self) -> Seq<Option<SocketAddr>> {
        self.clients@
    }

    /// The parts fit together: the routes are those of the configured
    /// backends, the registry is laid out for the configuration, registry
    /// and cache are well-formed, the cache holds the registry's handles,
    /// and each cell of the registry has its queue, which is well-formed,
    /// and its place for a client.
    pub open spec fn wf(&self) -> bool {
        &&& self.config().wf()
        &&& self.registry().configured_by(self.config())
        &&& self.registry().wf()
        &&& self.cache().wf()
        &&& agrees(self.cache().entries, self.registry().names())
        &&& self.queues().len() == self.registry().watches().len()
        &&& self.clients().len() == self.registry().watches().len()
        &&& forall|i: int| 0 <= i < self.queues().len() ==> (#[trigger] self.queues()[i]).wf()
    }

    /// What the discovery stage says of a request for the backend `name`
    /// at the time `now`: the handle on the backend's cell, where the
    /// backend lives and the request's ticket; `NotConfigured` where no
    /// backend has that name, `NotResolved` where the backend has no live
    /// address, `Overloaded` where its queue is full.
    pub open spec fn admitted(&self, name: Seq<char>, now: u64) -> Result<
        (Receiver, DiscoveredView, AdmissionTicket),
        ErrorView,
    > {
        match self.cache().lookup(self.registry().names(), name, now) {
            None => Err(ErrorView::NotConfigured(name)),
            Some(lookup) => match self.registry().watches()[lookup.rx.slot as int].value {
                None => Err(ErrorView::NotResolved),
                Some(target) => {
                    let queue = self.queues()[lookup.rx.slot as int];
                    if queue.is_full() {
                        Err(ErrorView::Overloaded)
                    } else {
                        Ok((lookup.rx, target, queue.next_ticket(now)))
                    }
                },
            },
        }
    }

    /// The queues after the discovery stage has handled a request for the
    /// backend `name` at the time `now`: the queue of a backend that is
    /// configured and resolved has taken the request in, if it had room;
    /// every other queue is as before.
    pub open spec fn queues_after(&self, name: Seq<char>, now: u64) -> Seq<QueueView> {
        match self.cache().lookup(self.registry().names(), name, now) {
            None => self.queues(),
            Some(lookup) => match self.registry().watches()[lookup.rx.slot as int].value {
                None => self.queues(),
                Some(_) => self.queues().update(
                    lookup.rx.slot as int,
                    self.queues()[lookup.rx.slot as int].enqueued(now),
                ),
            },
        }
    }

    /// What the whole pipeline says of a request: `NoRoute` with the
    /// request target where no route matches, else what the discovery
    /// stage says of the backend of the first route that does.
    pub open spec fn routed(&self, req: RequestView, now: u64) -> Result<
        (Seq<char>, Receiver, DiscoveredView, AdmissionTicket),
        ErrorView,
    > {
        match route_of(self.config().routes@, req) {
            None => Err(ErrorView::NoRoute(req.uri)),
            Some(name) => match self.admitted(name, now) {
                Ok((rx, target, ticket)) => Ok((name, rx, target, ticket)),
                Err(e) => Err(e),
            },
        }
    }

    /// The pipeline of a configuration whose routes are those of its
    /// backends, no two of which have the same name: nothing is resolved,
    /// nothing is cached, no backend has a client, and every backend has
    /// an empty queue with the limits of the listeners.
    pub fn new(config: Config) -> (proxy: Proxy)
        requires
            config.wf(),
        ensures
            proxy.wf(),
            proxy.config() == config,
            proxy.registry().built_from(config),
            proxy.cache() == (CacheView { ttl: 60_000, entries: Seq::empty() }),
            proxy.queues().len() == config.services@.len(),
            proxy.clients().len() == config.services@.len(),
            forall|i: int| 0 <= i < proxy.clients().len() ==> proxy.clients()[i].is_none(),
            forall|i: int|
                0 <= i < proxy.queues().len() ==> #[trigger] proxy.queues()[i] == (QueueView {
                    capacity: config.listeners.queue.spec_capacity(),
                    timeout: config.listeners.queue.spec_timeout(),
                    outstanding: Seq::empty(),
                    issued: 0,
                }),
    {
        let discover = MdnsDiscover::new(&config);
        let cache = DiscoveryCache::new(DiscoveryCache::default_ttl());
        let mut queues: Vec<AdmissionQueue> = Vec::new();
        let n = discover.len();
        let mut i: usize = 0;
        while i < n
            invariant
                i <= n,
                queues@.len() == i,
                forall|k: int|
                    0 <= k < i ==> (#[trigger] queues@[k])@ == (QueueView {
                        capacity: config.listeners.queue.spec_capacity(),
                        timeout: config.listeners.queue.spec_timeout(),
                        outstanding: Seq::empty(),
                        issued: 0,
                    }) && queues@[k]@.wf(),
            decreases n - i,
        {
            queues.push(AdmissionQueue::new(config.listeners.queue));
            i += 1;
        }
        let clients = NewClient::layer(n);
        Proxy { config, discover, cache, queues, clients }
    }

    /// The registry, for whoever runs the browses.
    pub fn discover(&self) -> (registry: &MdnsDiscover)
        ensures
            *registry == self.registry(),
    {
        &self.discover
    }

    /// The configuration.
    pub fn configuration(&self) -> (config: &Config)
        ensures
            *config == self.config(),
    {
        &self.config
    }

    /// Takes in an event that browse `browse` reported; see
    /// [`MdnsDiscover::handle_event`]. Cache and queues stay as they are.
    pub fn handle_event(&mut self, browse: usize, event: &ServiceEvent) -> (updated: Option<
        Receiver,
    >)
        requires
            old(self).wf(),
            browse < old(self).registry().browses().len(),
        ensures
            final(self).wf(),
            final(self).config() == old(self).config(),
            final(self).cache() == old(self).cache(),
            final(self).queues() == old(self).queues(),
            final(self).clients() == old(self).clients(),
            final(self).registry().names() == old(self).registry().names(),
            final(self).registry().browses() == old(self).registry().browses(),
            final(self).registry().watches() == apply_event(
                old(self).registry().watches(),
                old(self).registry().browses()[browse as int],
                event@,
            ),
            updated == match event_target(old(self).registry().browses()[browse as int], event@) {
                Some((slot, _)) => Some(Receiver { slot }),
                None => None,
            },
    {
        self.discover.handle_event(browse, event)
    }

    /// Drops the cache entries that nobody asked for in time; see
    /// [`DiscoveryCache::evict`]. Handles that were handed out stay good.
    pub fn evict(&mut self, now: u64) -> (dropped: usize)
        requires
            old(self).wf(),
        ensures
            final(self).wf(),
            final(self).config() == old(self).config(),
            final(self).registry() == old(self).registry(),
            final(self).queues() == old(self).queues(),
            final(self).clients() == old(self).clients(),
            final(self).cache() == old(self).cache().evicted(now),
            dropped == old(self).cache().entries.len() - final(self).cache().entries.len(),
    {
        proof {
            lemma_discovered_agrees(self.cache(), self.registry().names(), Seq::empty(), now);
        }
        self.cache.evict(now)
    }

    /// The endpoint stage: where a request for the backend behind `rx`,
    /// which lives at `target`, is sent, and through which client. A new
    /// client is the backend's client from now on.
    pub fn push_http_endpoint(&mut self, rx: &Receiver, target: &Discovered, req: &RequestHead) -> (endpoint:
        Endpoint)
        requires
            old(self).wf(),
            old(self).registry().owns(*rx),
        ensures
            final(self).wf(),
            final(self).config() == old(self).config(),
            final(self).registry() == old(self).registry(),
            final(self).cache() == old(self).cache(),
            final(self).queues() == old(self).queues(),
            final(self).clients() == old(self).clients().update(rx.slot as int, Some(target.addr)),
            endpoint@ == endpoint_of(target@, req@, old(self).clients()[rx.slot as int]),
    {
        let authority = match &req.authority {
            Some(authority) => authority.clone(),
            None => match &req.host {
                Some(host) => host.clone(),
                None => target.name.clone(),
            },
        };
        let client = self.clients.new_service(rx, target);
        Endpoint { addr: target.addr, authority, client }
    }

    /// The discovery stage, for a request for the backend `name` at the
    /// time `now`: the backend's handle is taken from the cache, which
    /// subscribes where it must; the backend must have a live address;
    /// and the backend's queue must let the request in.
    pub fn push_http_discover(&mut self, name: &Name, now: u64) -> (found: Result<Admitted, Error>)
        requires
            old(self).wf(),
        ensures
            final(self).wf(),
            final(self).config() == old(self).config(),
            final(self).registry() == old(self).registry(),
            final(self).cache() == old(self).cache().discovered(
                old(self).registry().names(),
                name@,
                now,
            ),
            final(self).queues() == old(self).queues_after(name@, now),
            final(self).clients() == old(self).clients(),
            found.is_ok() ==> old(self).registry().owns(found.unwrap().rx),
            match found {
                Ok(admitted) => old(self).admitted(name@, now) == Ok::<
                    (Receiver, DiscoveredView, AdmissionTicket),
                    ErrorView,
                >((admitted.rx, admitted.target@, admitted.ticket)),
                Err(e) => old(self).admitted(name@, now) == Err::<
                    (Receiver, DiscoveredView, AdmissionTicket),
                    ErrorView,
                >(e@),
            },
    {
        proof {
            lemma_discovered_agrees(self.cache(), self.registry().names(), name@, now);
        }
        let lookup = match self.cache.discover(&self.discover, name, now) {
            Ok(lookup) => lookup,
            Err(e) => {
                return Err(Error::NotConfigured(e));
            },
        };
        let target = match self.discover.borrow(&lookup.rx) {
            Some(target) => target,
            None => {
                return Err(Error::NotResolved(NotResolved));
            },
        };
        let ghost before = self.queues@;
        assert(self.queues()[lookup.rx.slot as int].wf());
        let let_in = self.queues[lookup.rx.slot].enqueue(now);
        proof {
            assert(self.queues() =~= queues_view(before).update(
                lookup.rx.slot as int,
                queues_view(before)[lookup.rx.slot as int].enqueued(now),
            ));
        }
        match let_in {
            Ok(ticket) => Ok(Admitted { target, rx: lookup.rx, ticket }),
            Err(e) => Err(e),
        }
    }

    /// What the client is told of an error.
    fn answer(req: &RequestHead, error: Error) -> (served: Served)
        ensures
            match answer_of(error@, req@) {
                Some((response, close)) => served matches Served::Reply {
                    response: made,
                    close_client,
                } && made@ == response && close_client == close,
                None => served matches Served::Fail(e) && e@ == error@,
            },
    {
        let respond = ExtractRespond(ServerRescue).extract_param().new_respond(req);
        match respond.respond::<()>(Err(error)) {
            Ok(Reply::Synthetic { response, close_client }) => Served::Reply {
                response,
                close_client,
            },
            Ok(Reply::Upstream(_)) => Served::Fail(Error::Protocol),
            Err(e) => Served::Fail(e),
        }
    }

    /// The server stage, for a request on an accepted connection at the
    /// time `now`: the request is routed, the discovery stage finds and
    /// admits it, and the endpoint stage says where it goes; it is to be
    /// sent there with a `forwarded` header that names the client and the
    /// backend. What fails on the way is answered as the gateway's
    /// strategy says.
    pub fn push_http_server(&mut self, accepted: &Accepted, req: &RequestHead, now: u64) -> (served:
        Served)
        requires
            old(self).wf(),
        ensures
            final(self).wf(),
            final(self).config() == old(self).config(),
            final(self).registry() == old(self).registry(),
            match route_of(old(self).config().routes@, req@) {
                Some(name) => final(self).cache() == old(self).cache().discovered(
                    old(self).registry().names(),
                    name,
                    now,
                ) && final(self).queues() == old(self).queues_after(name, now),
                None => final(self).cache() == old(self).cache() && final(self).queues() == old(
                    self,
                ).queues(),
            },
            served matches Served::Forward { rx, .. } ==> final(self).registry().owns(rx),
            !(served is Fail),
            match old(self).routed(req@, now) {
                Ok((_, at, target, _)) => final(self).clients() == old(self).clients().update(
                    at.slot as int,
                    Some(target.addr),
                ),
                Err(_) => final(self).clients() == old(self).clients(),
            },
            match old(self).routed(req@, now) {
                Ok((name, at, target, place)) => served matches Served::Forward {
                    endpoint,
                    forwarded,
                    rx,
                    ticket,
                } && endpoint@ == endpoint_of(target, req@, old(self).clients()[at.slot as int])
                    && opt_header(forwarded)
                    == forwarded_of(accepted.client_addr, name) && rx == at && ticket
                    == place,
                Err(error) => match answer_of(error, req@) {
                    Some((response, close)) => served matches Served::Reply {
                        response: made,
                        close_client,
                    } && made@ == response && close_client == close,
                    None => served matches Served::Fail(e) && e@ == error,
                },
            },
    {
        proof {
            law_server_stage_always_answers(*self, req@, now);
        }
        let name = match self.config.routes.select(req) {
            Ok(name) => name,
            Err(e) => {
                return Self::answer(req, e);
            },
        };
        let admitted = match self.push_http_discover(&name, now) {
            Ok(admitted) => admitted,
            Err(e) => {
                return Self::answer(req, e);
            },
        };
        let route = Route::from((name, *accepted));
        let forwarded = forwarded(&route);
        let endpoint = self.push_http_endpoint(&admitted.rx, &admitted.target, req);
        Served::Forward { endpoint, forwarded, rx: admitted.rx, ticket: admitted.ticket }
    }

    /// Answers a waiting request at the time `now`; see
    /// [`AdmissionQueue::poll`]. `rx` is the handle under which the
    /// request was admitted.
    pub fn poll_admission(&mut self, rx: &Receiver, ticket: &AdmissionTicket, now: u64) -> (answer: Result<
        Admission,
        Error,
    >)
        requires
            old(self).wf(),
            old(self).registry().owns(*rx),
        ensures
            final(self).wf(),
            final(self).config() == old(self).config(),
            final(self).registry() == old(self).registry(),
            final(self).cache() == old(self).cache(),
            final(self).clients() == old(self).clients(),
            final(self).queues() == old(self).queues().update(
                rx.slot as int,
                old(self).queues()[rx.slot as int].polled(ticket.id, now),
            ),
            match answer {
                Ok(Admission::Proceed) => old(self).queues()[rx.slot as int].holds(ticket.id)
                    && old(self).queues()[rx.slot as int].place_of(ticket.id) == 0,
                Ok(Admission::Wait) => old(self).queues()[rx.slot as int].holds(ticket.id)
                    && old(self).queues()[rx.slot as int].place_of(ticket.id) > 0 && !old(
                    self,
                ).queues()[rx.slot as int].times_out(ticket.id, now),
                Err(e) => if old(self).queues()[rx.slot as int].holds(ticket.id) {
                    old(self).queues()[rx.slot as int].times_out(ticket.id, now) && e@
                        == ErrorView::FailFast
                } else {
                    e@ == ErrorView::Unexpected("unknown admission ticket"@)
                },
            },
    {
        let ghost before = self.queues@;
        assert(self.queues()[rx.slot as int].wf());
        let answer = self.queues[rx.slot].poll(ticket, now);
        proof {
            assert(self.queues() =~= queues_view(before).update(
                rx.slot as int,
                queues_view(before)[rx.slot as int].polled(ticket.id, now),
            ));
        }
        answer
    }

    /// Ends a request that was admitted under `rx` and `ticket`: its
    /// ticket leaves the queue, so that the next request may proceed, and
    /// a failure of the dispatch is answered as the gateway's strategy
    /// says.
    pub fn finish(
        &mut self,
        rx: &Receiver,
        ticket: &AdmissionTicket,
        req: &RequestHead,
        outcome: Result<(), Error>,
    ) -> (served: Option<Served>)
        requires
            old(self).wf(),
            old(self).registry().owns(*rx),
        ensures
            final(self).wf(),
            final(self).config() == old(self).config(),
            final(self).registry() == old(self).registry(),
            final(self).cache() == old(self).cache(),
            final(self).clients() == old(self).clients(),
            final(self).queues() == old(self).queues().update(
                rx.slot as int,
                old(self).queues()[rx.slot as int].released(ticket.id),
            ),
            match outcome {
                Ok(_) => served.is_none(),
                Err(error) => match answer_of(error@, req@) {
                    Some((response, close)) => served matches Some(
                        Served::Reply { response: made, close_client },
                    ) && made@ == response && close_client == close,
                    None => served matches Some(Served::Fail(e)) && e@ == error@,
                },
            },
    {
        let ghost before = self.queues@;
        assert(self.queues()[rx.slot as int].wf());
        let _ = self.queues[rx.slot].release(ticket);
        proof {
            assert(self.queues() =~= queues_view(before).update(
                rx.slot as int,
                queues_view(before)[rx.slot as int].released(ticket.id),
            ));
        }
        match outcome {
            Ok(_) => None,
            Err(error) => Some(Self::answer(req, error)),
        }
    }
}

/// A request that has a route is for a configured backend.
pub proof fn lemma_routed_backend_is_configured(proxy: Proxy, req: RequestView)
    requires
        proxy.wf(),
        route_of(proxy.config().routes@, req).is_some(),
    ensures
        proxy.registry().names().contains_key(route_of(proxy.config().routes@, req).unwrap()),
{
    let routes = proxy.config().routes@;
    let i = choose|i: int| is_selected(routes, req, i);
    assert(is_selected(routes, req, i));
    assert(routes[i] == (proxy.config().services@[i].1.recognize@, proxy.config().services@[i].0@));
    assert(service_placed(
        proxy.config().services@,
        proxy.config().local_tld@,
        proxy.registry().names(),
        proxy.registry().browses(),
        i,
    ));
}

/// As long as discovery has said nothing of a backend, or has said last
/// that it is gone, a request for it is answered with 503, and the
/// connection closes.
pub proof fn law_unresolved_backend_is_unavailable(proxy: Proxy, req: RequestView, now: u64)
    requires
        proxy.wf(),
        route_of(proxy.config().routes@, req).is_some(),
        proxy.registry().watches()[proxy.registry().names()[route_of(
            proxy.config().routes@,
            req,
        ).unwrap()] as int].value.is_none(),
    ensures
        proxy.routed(req, now) == Err::<
            (Seq<char>, Receiver, DiscoveredView, AdmissionTicket),
            ErrorView,
        >(ErrorView::NotResolved),
        answer_of(ErrorView::NotResolved, req).is_some(),
        answer_of(ErrorView::NotResolved, req).unwrap().0.status == 503,
        answer_of(ErrorView::NotResolved, req).unwrap().1 == req.client.is_some(),
{
    let name = route_of(proxy.config().routes@, req).unwrap();
    lemma_routed_backend_is_configured(proxy, req);
    lemma_discovered_agrees(proxy.cache(), proxy.registry().names(), name, now);
}

/// Once discovery has said where a backend lives, a request for it is
/// sent there, unless the backend's queue is full.
pub proof fn law_resolved_backend_is_dispatched(proxy: Proxy, req: RequestView, now: u64)
    requires
        proxy.wf(),
        route_of(proxy.config().routes@, req).is_some(),
        proxy.registry().watches()[proxy.registry().names()[route_of(
            proxy.config().routes@,
            req,
        ).unwrap()] as int].value.is_some(),
        !proxy.queues()[proxy.registry().names()[route_of(
            proxy.config().routes@,
            req,
        ).unwrap()] as int].is_full(),
    ensures
        proxy.routed(req, now) matches Ok((name, rx, target, _)) && name == route_of(
            proxy.config().routes@,
            req,
        ).unwrap() && rx.slot == proxy.registry().names()[name] && Some(target)
            == proxy.registry().watches()[rx.slot as int].value,
{
    let name = route_of(proxy.config().routes@, req).unwrap();
    lemma_routed_backend_is_configured(proxy, req);
    lemma_discovered_agrees(proxy.cache(), proxy.registry().names(), name, now);
}

/// Every error has its answer but a broken protocol, which has none.
pub proof fn law_only_protocol_errors_pass(error: ErrorView, req: RequestView)
    ensures
        answer_of(error, req).is_none() <==> error == ErrorView::Protocol,
{
}

/// Routes and registry come from one configuration, so the pipeline never
/// finds a routed backend unknown: what it says of a request is a dispatch
/// or one of `NoRoute`, `NotResolved` and `Overloaded`, each of which has
/// its answer.
pub proof fn law_server_stage_always_answers(proxy: Proxy, req: RequestView, now: u64)
    requires
        proxy.wf(),
    ensures
        match proxy.routed(req, now) {
            Ok(_) => true,
            Err(error) => (error == ErrorView::NoRoute(req.uri) || error == ErrorView::NotResolved
                || error == ErrorView::Overloaded) && answer_of(error, req).is_some(),
        },
{
    if route_of(proxy.config().routes@, req).is_some() {
        let name = route_of(proxy.config().routes@, req).unwrap();
        lemma_routed_backend_is_configured(proxy, req);
        lemma_discovered_agrees(proxy.cache(), proxy.registry().names(), name, now);
    }
}

} // verus!
