//! The routes of an inway and what its listener does with a request.
//!
//! The routing table maps the name of a service to the URL of its backend.
//! One task replaces it whenever a configuration is published; every
//! request reads it.

use crate::inway::config::{lemma_viewed_map, Config, ServiceView};
use crate::path::{is_rooted, segment_at, spec_segment_at, spec_tail_from, tail_from};
use crate::text::same_text;
use crate::text_map::{lemma_map_of_push, spec_distinct_keys, spec_has_key, spec_map_of, TextMap};
use crate::tls::{spec_pem_bundle, TlsPair};
use vstd::prelude::*;

verus! {

/// The routes that a configuration stands for: each service name with the
/// URL of its backend.
pub open spec fn spec_routes(config: Map<Seq<char>, ServiceView>) -> Map<Seq<char>, Seq<char>> {
    config.map_values(|service: ServiceView| service.endpoint_url)
}

/// The routing table of an inway.
#[derive(Debug, Clone)]
pub struct RoutingTable {
    routes: TextMap<String>,
}

impl View for RoutingTable {
    type V = Map<Seq<char>, Seq<char>>;

    /// The routes as a map from the name of a service to the URL of its
    /// backend.
    closed spec fn view(&self) -> Map<Seq<char>, Seq<char>> {
        self.routes@.map_values(|url: String| url@)
    }
}

/// What reaches the task that keeps the routing table.
#[derive(Debug, Clone)]
pub enum ChannelEvent {
    /// A configuration was published.
    Config(Config),
    /// Publications were missed.
    Lagged,
    /// Nothing will be published any more.
    Closed,
}

/// A channel event as plain values.
pub enum ChannelEventView {
    Config(Map<Seq<char>, ServiceView>),
    Lagged,
    Closed,
}

impl View for ChannelEvent {
    type V = ChannelEventView;

    open spec fn view(&self) -> ChannelEventView {
        match self {
            ChannelEvent::Config(config) => ChannelEventView::Config(config@),
            ChannelEvent::Lagged => ChannelEventView::Lagged,
            ChannelEvent::Closed => ChannelEventView::Closed,
        }
    }
}

/// The routes after one event: a published configuration replaces them as
/// a whole; missed publications and the end of the channel leave them.
pub open spec fn spec_routes_after(
    routes: Map<Seq<char>, Seq<char>>,
    event: ChannelEventView,
) -> Map<Seq<char>, Seq<char>> {
    match event {
        ChannelEventView::Config(config) => spec_routes(config),
        ChannelEventView::Lagged => routes,
        ChannelEventView::Closed => routes,
    }
}

/// The routes after a sequence of events, one after the other.
pub open spec fn spec_routes_after_all(
    routes: Map<Seq<char>, Seq<char>>,
    events: Seq<ChannelEventView>,
) -> Map<Seq<char>, Seq<char>>
    decreases events.len(),
{
    if events.len() == 0 {
        routes
    } else {
        spec_routes_after(spec_routes_after_all(routes, events.drop_last()), events.last())
    }
}

/// The answer to a question after the health of a service.
#[derive(Debug, Clone)]
pub struct Health {
    pub healthy: bool,
    pub version: String,
}

impl RoutingTable {
    /// A table without routes.
    pub fn new() -> (table: Self)
        ensures
            table@ == Map::<Seq<char>, Seq<char>>::empty(),
    {
        let table = RoutingTable { routes: TextMap::new() };
        assert(table@ =~= Map::<Seq<char>, Seq<char>>::empty());
        table
    }

    /// The table that a configuration stands for.
    pub fn from_config(config: &Config) -> (table: Self)
        ensures
            table@ == spec_routes(config@),
    {
        let count = config.services.len();
        let ghost entries = config.spec_entries();
        proof {
            lemma_viewed_map(config.services.entries());
        }
        let mut routes: TextMap<String> = TextMap::new();
        let mut at: usize = 0;
        proof {
            assert(routes@.map_values(|url: String| url@) =~= spec_routes(
                spec_map_of(entries.take(0)),
            ));
        }
        while at < count
            invariant
                at <= count,
                count == config.services.entries().len(),
                entries == config.spec_entries(),
                spec_distinct_keys(entries),
                routes@.map_values(|url: String| url@) == spec_routes(
                    spec_map_of(entries.take(at as int)),
                ),
            decreases count - at,
        {
            let name = String::from_str(config.services.key_at(at));
            let url = config.services.value_at(at).endpoint_url.clone();
            proof {
                let done = entries.take(at as int);
                assert forall|i: int, j: int| 0 <= i < j < done.len() implies (#[trigger] done[i]).0
                    != (#[trigger] done[j]).0 by {
                    assert(entries[i].0 != entries[j].0);
                }
                assert(!spec_has_key(done, entries[at as int].0)) by {
                    if spec_has_key(done, entries[at as int].0) {
                        let i = crate::text_map::spec_index_of(done, entries[at as int].0);
                        assert(entries[i].0 != entries[at as int].0);
                    }
                }
                lemma_map_of_push(done, entries[at as int].0, entries[at as int].1);
                assert(done.push(entries[at as int]) =~= entries.take(at + 1));
            }
            let ghost before = routes@;
            routes.insert(name, url);
            proof {
                assert(routes@.map_values(|url: String| url@) =~= before.map_values(
                    |url: String| url@,
                ).insert(entries[at as int].0, entries[at as int].1.endpoint_url));
                assert(spec_routes(spec_map_of(entries.take(at + 1))) =~= spec_routes(
                    spec_map_of(entries.take(at as int)),
                ).insert(entries[at as int].0, entries[at as int].1.endpoint_url));
            }
            at += 1;
        }
        assert(entries.take(count as int) =~= entries);
        RoutingTable { routes }
    }

    /// Takes one event in. A published configuration replaces the routes as
    /// a whole, so that nothing of an older configuration stays; missed
    /// publications leave the routes, because stale routes are better than
    /// none; the end of the channel leaves them for good. Returns whether
    /// more events are to be awaited.
    pub fn handle_event(&mut self, event: ChannelEvent) -> (more: bool)
        ensures
            final(self)@ == spec_routes_after(old(self)@, event@),
            more == !(event@ is Closed),
    {
        match event {
            ChannelEvent::Config(config) => {
                *self = RoutingTable::from_config(&config);
                true
            },
            ChannelEvent::Lagged => true,
            ChannelEvent::Closed => false,
        }
    }

    /// The URL of the backend of a service, if the table holds the service.
    pub fn upstream(&self, service: &str) -> (url: Option<String>)
        ensures
            match url {
                Some(found) => self@.dom().contains(service@) && found@ == self@[service@],
                None => !self@.dom().contains(service@),
            },
    {
        match self.routes.get(service) {
            Some(url) => Some(url.clone()),
            None => None,
        }
    }

    /// Whether a service is served: it is healthy exactly if the table
    /// holds it. The version is left empty.
    pub fn health(&self, service: &str) -> (health: Health)
        ensures
            health.healthy == self@.dom().contains(service@),
            health.version@ == Seq::<char>::empty(),
    {
        Health { healthy: self.routes.contains_key(service), version: String::new() }
    }
}

/// After any events, the routes are those of the configuration that was
/// published last: a lookup never gives a value of an older configuration.
pub proof fn lemma_routes_follow_last_publication(
    routes: Map<Seq<char>, Seq<char>>,
    events: Seq<ChannelEventView>,
    last: int,
)
    requires
        0 <= last < events.len(),
        events[last] is Config,
        forall|i: int| last < i < events.len() ==> !(#[trigger] events[i] is Config),
    ensures
        spec_routes_after_all(routes, events) == spec_routes(events[last]->Config_0),
    decreases events.len(),
{
    if last < events.len() - 1 {
        let shorter = events.drop_last();
        assert(!(events[events.len() - 1] is Config));
        assert forall|i: int| last < i < shorter.len() implies !(#[trigger] shorter[i] is Config) by {
            assert(!(events[i] is Config));
        }
        lemma_routes_follow_last_publication(routes, shorter, last);
    }
}

/// Before anything is published, the routes stay what they were.
pub proof fn lemma_routes_stay_without_publication(
    routes: Map<Seq<char>, Seq<char>>,
    events: Seq<ChannelEventView>,
)
    requires
        forall|i: int| 0 <= i < events.len() ==> !(#[trigger] events[i] is Config),
    ensures
        spec_routes_after_all(routes, events) == routes,
    decreases events.len(),
{
    if events.len() > 0 {
        let shorter = events.drop_last();
        assert(!(events[events.len() - 1] is Config));
        assert forall|i: int| 0 <= i < shorter.len() implies !(#[trigger] shorter[i] is Config) by {
            assert(!(events[i] is Config));
        }
        lemma_routes_stay_without_publication(routes, shorter);
    }
}

/// What the listener of an inway does with a request.
#[derive(Debug, Clone)]
pub enum Route {
    /// It answers a question after the health of a service.
    Health { service: String },
    /// It forwards the request to the backend of a service, with the path
    /// behind the name of the service.
    Proxy { service: String, tail: String },
    /// It answers that there is no such resource.
    NotFound,
}

/// A route as plain values.
pub enum RouteView {
    Health { service: Seq<char> },
    Proxy { service: Seq<char>, tail: Seq<char> },
    NotFound,
}

impl View for Route {
    type V = RouteView;

    open spec fn view(&self) -> RouteView {
        match self {
            Route::Health { service } => RouteView::Health { service: service@ },
            Route::Proxy { service, tail } => RouteView::Proxy { service: service@, tail: tail@ },
            Route::NotFound => RouteView::NotFound,
        }
    }
}

/// The service whose health a path asks after: the third segment of a path
/// whose first two segments are `.nlx` and `health`.
pub open spec fn spec_health_service(path: Seq<char>) -> Option<Seq<char>> {
    match spec_segment_at(path, 1) {
        Some((first, second_at)) => if first == ".nlx"@ {
            match spec_segment_at(path, second_at) {
                Some((second, third_at)) => if second == "health"@ {
                    match spec_segment_at(path, third_at) {
                        Some((service, _)) => Some(service),
                        None => None,
                    }
                } else {
                    None
                },
                None => None,
            }
        } else {
            None
        },
        None => None,
    }
}

/// The route of a request by its method and its path. A `GET` on
/// `/.nlx/health/<service>` asks after the health of the service. Every
/// other request on `/<service>/<rest>` goes to the backend of the service
/// with `<rest>` as its path. A path without a first segment has no route.
pub open spec fn spec_route(is_get: bool, path: Seq<char>) -> RouteView {
    if path.len() == 0 || path[0] != '/' {
        RouteView::NotFound
    } else {
        match spec_segment_at(path, 1) {
            None => RouteView::NotFound,
            Some((service, tail_at)) => match spec_health_service(path) {
                Some(asked) => if is_get {
                    RouteView::Health { service: asked }
                } else {
                    RouteView::Proxy { service, tail: spec_tail_from(path, tail_at) }
                },
                None => RouteView::Proxy { service, tail: spec_tail_from(path, tail_at) },
            },
        }
    }
}

/// The service whose health a path asks after, if it asks after one.
pub fn health_service(path: &str) -> (service: Option<String>)
    ensures
        match service {
            Some(asked) => spec_health_service(path@) == Some(asked@),
            None => spec_health_service(path@) is None,
        },
{
    match segment_at(path, 1) {
        Some((first, second_at)) => {
            if !same_text(first.as_str(), ".nlx") {
                return None;
            }
            match segment_at(path, second_at) {
                Some((second, third_at)) => {
                    if !same_text(second.as_str(), "health") {
                        return None;
                    }
                    match segment_at(path, third_at) {
                        Some((service, _)) => Some(service),
                        None => None,
                    }
                },
                None => None,
            }
        },
        None => None,
    }
}

/// Finds the route of a request by its method and its path.
pub fn route(is_get: bool, path: &str) -> (found: Route)
    ensures
        found@ == spec_route(is_get, path@),
{
    if !is_rooted(path) {
        return Route::NotFound;
    }
    match segment_at(path, 1) {
        None => Route::NotFound,
        Some((service, tail_at)) => {
            if is_get {
                match health_service(path) {
                    Some(asked) => {
                        return Route::Health { service: asked };
                    },
                    None => {},
                }
            }
            Route::Proxy { service, tail: tail_from(path, tail_at) }
        },
    }
}

/// What the listener of an inway presents and asks for: its certificate,
/// its key, and the authorities by which the certificate of every client
/// has to be signed.
#[derive(Debug, Clone)]
pub struct ServerIdentity {
    pub cert_pem: Vec<u8>,
    pub key_pem: Vec<u8>,
    pub client_auth_pem: Vec<u8>,
}

/// The listener of an inway, as far as its identity goes.
#[derive(Debug, Clone)]
pub struct Server {
    tls_pair: TlsPair,
}

impl Server {
    /// The TLS material of the listener.
    pub closed spec fn spec_tls_pair(&self) -> TlsPair {
        self.tls_pair
    }

    /// A listener with the TLS material of the organization.
    pub fn new(tls_pair: TlsPair) -> (server: Self)
        ensures
            server.spec_tls_pair() == tls_pair,
    {
        Self { tls_pair }
    }

    /// The identity of the listener: the certificate and key of the
    /// organization, and as authorities for its clients the bundle of the
    /// certificate and the root.
    pub fn identity(&self) -> (identity: ServerIdentity)
        ensures
            identity.cert_pem@ == self.spec_tls_pair().cert_pem@,
            identity.key_pem@ == self.spec_tls_pair().key_pem@,
            identity.client_auth_pem@ == spec_pem_bundle(
                self.spec_tls_pair().cert_pem@,
                self.spec_tls_pair().root_pem@,
            ),
    {
        ServerIdentity {
            cert_pem: self.tls_pair.cert_pem.clone(),
            key_pem: self.tls_pair.key_pem.clone(),
            client_auth_pem: self.tls_pair.bundle(),
        }
    }
}

} // verus!
