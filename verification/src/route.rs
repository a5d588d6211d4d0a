//! The routing table: which backend a request is for.

use vstd::prelude::*;
use crate::discover::Name;
use crate::error::{Error, ErrorView};
use crate::http::{RequestHead, RequestView};
use crate::text::{host_of, host_part, lemma_host_part_strips_port, opt_text};

verus! {

/// Whether `s` is an authority as the `http` crate parses one.
pub uninterp spec fn valid_authority(s: Seq<char>) -> bool;

/// Whether `pattern` is a regular expression that the `regex` crate compiles.
pub uninterp spec fn regex_compiles(pattern: Seq<char>) -> bool;

/// Whether the regular expression `pattern` matches somewhere in `text`.
pub uninterp spec fn regex_matches(pattern: Seq<char>, text: Seq<char>) -> bool;

/// Calls `http::uri::Authority::from_str`: whether `s` parses as an
/// authority. Which texts do is left to that crate.
#[verifier::external_body]
fn is_authority(s: &str) -> (ok: bool)
    ensures
        ok == valid_authority(s@),
{
    s.parse::<::http::uri::Authority>().is_ok()
}

/// Calls `regex::Regex::new` and, on what it compiled, `Regex::is_match`:
/// `None` where `pattern` does not compile, else whether it matches
/// somewhere in `text`. Both answers are left to that crate.
#[verifier::external_body]
fn regex_is_match(pattern: &str, text: &str) -> (found: Option<bool>)
    ensures
        found == (if regex_compiles(pattern@) {
            Some(regex_matches(pattern@, text@))
        } else {
            None::<bool>
        }),
{
    match ::regex::Regex::new(pattern) {
        Ok(re) => Some(re.is_match(text)),
        Err(_) => None,
    }
}

/// The host that an authority names; `None` where the text is no authority.
pub open spec fn authority_host(a: Seq<char>) -> Option<Seq<char>> {
    if valid_authority(a) {
        Some(host_part(a))
    } else {
        None
    }
}

/// The host that an optional authority names.
pub open spec fn opt_host(a: Option<Seq<char>>) -> Option<Seq<char>> {
    match a {
        Some(a) => authority_host(a),
        None => None,
    }
}

/// The host that `authority` names, with user information and port taken
/// off; `None` where the text is no authority.
pub fn parse_host(authority: &str) -> (host: Option<String>)
    ensures
        opt_text(host) == authority_host(authority@),
{
    if is_authority(authority) {
        Some(host_of(authority))
    } else {
        None
    }
}

/// The criteria of one route. Each of the two may be absent; a request
/// matches where one that is present matches.
#[derive(Debug)]
pub struct Recognize {
    /// The authority whose host the request must name.
    pub host: Option<String>,
    /// The regular expression that the request's path must match.
    pub path_regex: Option<String>,
}

/// The criteria of one route as a value of mathematics.
pub struct RecognizeView {
    pub host: Option<Seq<char>>,
    pub path_regex: Option<Seq<char>>,
}

impl View for Recognize {
    type V = RecognizeView;

    open spec fn view(&self) -> RecognizeView {
        RecognizeView { host: opt_text(self.host), path_regex: opt_text(self.path_regex) }
    }
}

impl Clone for Recognize {
    fn clone(&self) -> (copy: Self)
        ensures
            copy == *self,
    {
        Recognize { host: self.host.clone(), path_regex: self.path_regex.clone() }
    }
}

/// Whether a request names the host `host`: the host of its target or the
/// host of its `Host` header is `host`. Each of the three is absent where
/// there is no such text or the text is no authority; an absent `host` is
/// named by no request.
pub open spec fn hosts_agree(
    host: Option<Seq<char>>,
    of_target: Option<Seq<char>>,
    of_header: Option<Seq<char>>,
) -> bool {
    match host {
        Some(h) => of_target == Some(h) || of_header == Some(h),
        None => false,
    }
}

/// Whether a pattern's answer is a match: it compiled, and it matched.
pub open spec fn pattern_found(answer: Option<bool>) -> bool {
    answer == Some(true)
}

impl RecognizeView {
    /// The request names the configured host, in the authority of its target
    /// or in its `Host` header; ports do not count.
    pub open spec fn host_matches(self, req: RequestView) -> bool {
        hosts_agree(opt_host(self.host), opt_host(req.authority), opt_host(req.host))
    }

    /// The request has a path and the configured pattern matches in it.
    pub open spec fn path_matches(self, req: RequestView) -> bool {
        match (self.path_regex, req.path) {
            (Some(pattern), Some(path)) => pattern_found(
                if regex_compiles(pattern) {
                    Some(regex_matches(pattern, path))
                } else {
                    None
                },
            ),
            _ => false,
        }
    }

    /// One of the criteria that are present matches.
    pub open spec fn matches(self, req: RequestView) -> bool {
        self.host_matches(req) || self.path_matches(req)
    }
}

/// The host of an optional authority.
fn parse_opt_host(authority: &Option<String>) -> (host: Option<String>)
    ensures
        opt_text(host) == opt_host(opt_text(*authority)),
{
    match authority {
        Some(text) => parse_host(text.as_str()),
        None => None,
    }
}

impl Recognize {
    /// Whether a request names the host `host`, given the host of its
    /// target and the host of its `Host` header.
    pub fn hosts_agree(
        host: &Option<String>,
        of_target: &Option<String>,
        of_header: &Option<String>,
    ) -> (m: bool)
        ensures
            m == hosts_agree(opt_text(*host), opt_text(*of_target), opt_text(*of_header)),
    {
        match host {
            Some(h) => {
                let in_target = match of_target {
                    Some(t) => *t == *h,
                    None => false,
                };
                let in_header = match of_header {
                    Some(t) => *t == *h,
                    None => false,
                };
                in_target || in_header
            },
            None => false,
        }
    }

    /// Whether a pattern's answer is a match.
    pub fn pattern_found(answer: Option<bool>) -> (m: bool)
        ensures
            m == pattern_found(answer),
    {
        match answer {
            Some(found) => found,
            None => false,
        }
    }

    /// Whether the request meets the host criterion.
    pub fn host_matches(&self, req: &RequestHead) -> (m: bool)
        ensures
            m == self@.host_matches(req@),
    {
        let host = parse_opt_host(&self.host);
        if host.is_none() {
            return false;
        }
        let of_target = parse_opt_host(&req.authority);
        let of_header = parse_opt_host(&req.host);
        Self::hosts_agree(&host, &of_target, &of_header)
    }

    /// Whether the request meets the path criterion.
    pub fn path_matches(&self, req: &RequestHead) -> (m: bool)
        ensures
            m == self@.path_matches(req@),
    {
        match &self.path_regex {
            Some(pattern) => match &req.path {
                Some(path) => Self::pattern_found(regex_is_match(pattern.as_str(), path.as_str())),
                None => false,
            },
            None => false,
        }
    }

    /// Whether the request is for this route: the host criterion is tried
    /// first, then the path criterion, and one that matches is enough.
    pub fn matches(&self, req: &RequestHead) -> (m: bool)
        ensures
            m == self@.matches(req@),
    {
        if self.host_matches(req) {
            return true;
        }
        self.path_matches(req)
    }
}

/// An ordered list of routes. The order is the order of priority: the first
/// route that matches a request decides.
#[derive(Clone, Debug)]
pub struct RoutingTable {
    routes: Vec<(Recognize, Name)>,
}

/// Route `i` matches the request and none before it does.
pub open spec fn is_selected(
    routes: Seq<(RecognizeView, Seq<char>)>,
    req: RequestView,
    i: int,
) -> bool {
    &&& 0 <= i < routes.len()
    &&& routes[i].0.matches(req)
    &&& forall|j: int| 0 <= j < i ==> !(#[trigger] routes[j]).0.matches(req)
}

/// The backend of the first route that matches the request; `None` where no
/// route matches.
pub open spec fn route_of(routes: Seq<(RecognizeView, Seq<char>)>, req: RequestView) -> Option<
    Seq<char>,
> {
    if exists|i: int| is_selected(routes, req, i) {
        Some(routes[choose|i: int| is_selected(routes, req, i)].1)
    } else {
        None
    }
}

/// Two routes cannot both be the first that matches.
pub proof fn lemma_selected_unique(
    routes: Seq<(RecognizeView, Seq<char>)>,
    req: RequestView,
    i: int,
    j: int,
)
    requires
        is_selected(routes, req, i),
        is_selected(routes, req, j),
    ensures
        i == j,
{
    if i < j {
        assert(!routes[i].0.matches(req));
    } else if j < i {
        assert(!routes[j].0.matches(req));
    }
}

/// The first route that matches decides: where route `i` matches and none
/// before it does, the request is for the backend of route `i`.
pub proof fn law_first_match_wins(
    routes: Seq<(RecognizeView, Seq<char>)>,
    req: RequestView,
    i: int,
)
    requires
        is_selected(routes, req, i),
    ensures
        route_of(routes, req) == Some(routes[i].1),
{
    let c = choose|k: int| is_selected(routes, req, k);
    lemma_selected_unique(routes, req, i, c);
}

/// Where some route matches, one route is the first that does.
pub proof fn lemma_some_match_selects(
    routes: Seq<(RecognizeView, Seq<char>)>,
    req: RequestView,
    i: int,
) -> (first: int)
    requires
        0 <= i < routes.len(),
        routes[i].0.matches(req),
    ensures
        0 <= first <= i,
        is_selected(routes, req, first),
    decreases i,
{
    if forall|j: int| 0 <= j < i ==> !(#[trigger] routes[j]).0.matches(req) {
        i
    } else {
        let j = choose|j: int| 0 <= j < i && (#[trigger] routes[j]).0.matches(req);
        lemma_some_match_selects(routes, req, j)
    }
}

/// A request has a route exactly where some route of the table matches it.
pub proof fn law_route_exists_iff_some_match(
    routes: Seq<(RecognizeView, Seq<char>)>,
    req: RequestView,
)
    ensures
        route_of(routes, req).is_some() <==> exists|i: int|
            0 <= i < routes.len() && (#[trigger] routes[i]).0.matches(req),
{
    if exists|i: int| 0 <= i < routes.len() && (#[trigger] routes[i]).0.matches(req) {
        let i = choose|i: int| 0 <= i < routes.len() && (#[trigger] routes[i]).0.matches(req);
        let first = lemma_some_match_selects(routes, req, i);
    }
    if route_of(routes, req).is_some() {
        let c = choose|k: int| is_selected(routes, req, k);
        assert(routes[c].0.matches(req));
    }
}

/// The criteria are alternatives: a matcher matches where its host
/// criterion or its path criterion does; without a path criterion the host
/// alone decides, without a host criterion the path alone, and without
/// both nothing matches.
pub proof fn law_matcher_is_or(m: RecognizeView, req: RequestView)
    ensures
        m.matches(req) == (m.host_matches(req) || m.path_matches(req)),
        m.path_regex.is_none() ==> m.matches(req) == m.host_matches(req),
        m.host.is_none() ==> m.matches(req) == m.path_matches(req),
        m.host.is_none() && m.path_regex.is_none() ==> !m.matches(req),
{
}

/// A matcher with a host criterion only does not look at the path: two
/// requests that name the same authority and `Host` header fare alike.
pub proof fn law_host_only_ignores_path(m: RecognizeView, a: RequestView, b: RequestView)
    requires
        m.path_regex.is_none(),
        a.authority == b.authority,
        a.host == b.host,
    ensures
        m.matches(a) == m.matches(b),
{
}

/// A matcher with a path criterion only does not look at the host: two
/// requests with the same path fare alike.
pub proof fn law_path_only_ignores_host(m: RecognizeView, a: RequestView, b: RequestView)
    requires
        m.host.is_none(),
        a.path == b.path,
    ensures
        m.matches(a) == m.matches(b),
{
}

/// Ports do not count: a matcher configured with the plain host `host`
/// matches a request whose `Host` header is `host`, a colon and a port, and
/// one whose header is `host` alone.
pub proof fn law_host_ignores_port(
    m: RecognizeView,
    req: RequestView,
    host: Seq<char>,
    port: Seq<char>,
)
    requires
        m.host == Some(host),
        valid_authority(host),
        forall|i: int| 0 <= i < host.len() ==> host[i] != '@' && host[i] != ':',
        host.len() > 0 ==> host[0] != '[',
        forall|i: int| 0 <= i < port.len() ==> port[i] != '@',
        req.host == Some(host + seq![':'] + port) && valid_authority(host + seq![':'] + port)
            || req.host == Some(host),
    ensures
        m.matches(req),
{
    lemma_host_part_strips_port(host, port);
}

impl View for RoutingTable {
    type V = Seq<(RecognizeView, Seq<char>)>;

    closed spec fn view(&self) -> Seq<(RecognizeView, Seq<char>)> {
        Seq::new(self.routes@.len(), |i: int| (self.routes@[i].0@, self.routes@[i].1@))
    }
}

impl RoutingTable {
    /// A table of the given routes, in the given order.
    pub fn from_iter(routes: Vec<(Recognize, Name)>) -> (table: RoutingTable)
        ensures
            table@.len() == routes@.len(),
            forall|i: int|
                0 <= i < routes@.len() ==> #[trigger] table@[i] == (routes@[i].0@, routes@[i].1@),
    {
        RoutingTable { routes }
    }

    /// The number of routes.
    pub fn len(&self) -> (n: usize)
        ensures
            n == self@.len(),
    {
        self.routes.len()
    }

    /// The backend that the request is for: that of the first route, in the
    /// table's order, that matches. `NoRoute` with the request target where
    /// no route matches.
    pub fn select(&self, req: &RequestHead) -> (found: Result<Name, Error>)
        ensures
            match found {
                Ok(name) => route_of(self@, req@) == Some(name@),
                Err(e) => route_of(self@, req@).is_none() && e@ == ErrorView::NoRoute(req@.uri),
            },
    {
        let mut i: usize = 0;
        while i < self.routes.len()
            invariant
                i <= self.routes@.len(),
                forall|j: int| 0 <= j < i ==> !(#[trigger] self@[j]).0.matches(req@),
            decreases self.routes@.len() - i,
        {
            if self.routes[i].0.matches(req) {
                proof {
                    assert(is_selected(self@, req@, i as int));
                    let c = choose|k: int| is_selected(self@, req@, k);
                    lemma_selected_unique(self@, req@, i as int, c);
                }
                return Ok(self.routes[i].1.clone());
            }
            i += 1;
        }
        Err(Error::NoRoute(req.uri.clone()))
    }
}

} // verus!
