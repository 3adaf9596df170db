//! The routes of an outway and what its listener does with a request.
//!
//! The routing table is the configuration that was published last. A
//! request names an organization and a service; it goes to the first inway
//! of the first service of that organization that has the name.

use crate::outway::config::{Config, Service, ServiceView};
use crate::path::{is_rooted, segment_at, spec_segment_at, spec_tail_from, tail_from};
use crate::text::same_text;
use crate::tls::{
    parse_pem, parse_pem_many, spec_byte_strings, spec_pem_bundle, spec_pem_parse,
    spec_pem_parse_many, TlsError, TlsPair,
};
use vstd::prelude::*;

verus! {

/// The first service at or behind position `from` that has the name
/// `name`.
pub open spec fn spec_find_service(services: Seq<ServiceView>, name: Seq<char>, from: int) -> Option<
    ServiceView,
>
    decreases services.len() - from,
{
    if from < 0 || from >= services.len() {
        None
    } else if services[from].name == name {
        Some(services[from])
    } else {
        spec_find_service(services, name, from + 1)
    }
}

/// The base URL under which a service is reached: the address of its
/// first inway, the name of the service and `/`. `None` where the service
/// has no inway.
pub open spec fn spec_service_upstream(service: ServiceView) -> Option<Seq<char>> {
    if service.inways.len() > 0 {
        Some(service.inways[0].address + service.name + seq!['/'])
    } else {
        None
    }
}

/// Where a request for a service of an organization goes.
#[derive(Debug, Clone)]
pub enum Resolution {
    /// To this base URL.
    Upstream(String),
    /// Nowhere: the service is known, but no inway offers it.
    NoInway,
    /// Nowhere: the organization or the service is not known.
    NotFound,
}

/// A resolution as plain values.
pub enum ResolutionView {
    Upstream(Seq<char>),
    NoInway,
    NotFound,
}

impl View for Resolution {
    type V = ResolutionView;

    open spec fn view(&self) -> ResolutionView {
        match self {
            Resolution::Upstream(url) => ResolutionView::Upstream(url@),
            Resolution::NoInway => ResolutionView::NoInway,
            Resolution::NotFound => ResolutionView::NotFound,
        }
    }
}

/// Where a request goes by a configuration: to the first inway of the
/// first service of the organization that has the name.
pub open spec fn spec_resolve(
    config: Map<Seq<char>, Seq<ServiceView>>,
    organization: Seq<char>,
    service: Seq<char>,
) -> ResolutionView {
    if !config.dom().contains(organization) {
        ResolutionView::NotFound
    } else {
        match spec_find_service(config[organization], service, 0) {
            None => ResolutionView::NotFound,
            Some(found) => match spec_service_upstream(found) {
                Some(url) => ResolutionView::Upstream(url),
                None => ResolutionView::NoInway,
            },
        }
    }
}

/// What reaches the task that keeps the routing table.
#[derive(Debug, Clone)]
pub enum ChannelEvent {
    /// A configuration was published.
    Config(Config),
    /// Publications were missed.
    Lagged,
    /// Nothing will be published any more.
    Closed,
}

/// A channel event as plain values.
pub enum ChannelEventView {
    Config(Map<Seq<char>, Seq<ServiceView>>),
    Lagged,
    Closed,
}

impl View for ChannelEvent {
    type V = ChannelEventView;

    open spec fn view(&self) -> ChannelEventView {
        match self {
            ChannelEvent::Config(config) => ChannelEventView::Config(config@),
            ChannelEvent::Lagged => ChannelEventView::Lagged,
            ChannelEvent::Closed => ChannelEventView::Closed,
        }
    }
}

/// The configuration that routes after one event: a published one
/// replaces the one before as a whole; missed publications and the end of
/// the channel leave it.
pub open spec fn spec_routes_after(
    routes: Map<Seq<char>, Seq<ServiceView>>,
    event: ChannelEventView,
) -> Map<Seq<char>, Seq<ServiceView>> {
    match event {
        ChannelEventView::Config(config) => config,
        ChannelEventView::Lagged => routes,
        ChannelEventView::Closed => routes,
    }
}

/// The configuration that routes after a sequence of events.
pub open spec fn spec_routes_after_all(
    routes: Map<Seq<char>, Seq<ServiceView>>,
    events: Seq<ChannelEventView>,
) -> Map<Seq<char>, Seq<ServiceView>>
    decreases events.len(),
{
    if events.len() == 0 {
        routes
    } else {
        spec_routes_after(spec_routes_after_all(routes, events.drop_last()), events.last())
    }
}

/// The routing table of an outway.
#[derive(Debug, Clone)]
pub struct RoutingTable {
    config: Config,
}

impl View for RoutingTable {
    type V = Map<Seq<char>, Seq<ServiceView>>;

    /// The configuration that routes.
    closed spec fn view(&self) -> Map<Seq<char>, Seq<ServiceView>> {
        self.config@
    }
}

/// Finds the first service with a name in a list.
fn find_service<'a>(services: &'a Vec<Service>, name: &str) -> (found: Option<&'a Service>)
    ensures
        match found {
            Some(service) => spec_find_service(
                crate::outway::config::spec_service_views(services@),
                name@,
                0,
            ) == Some(service@),
            None => spec_find_service(
                crate::outway::config::spec_service_views(services@),
                name@,
                0,
            ) is None,
        },
{
    let ghost views = crate::outway::config::spec_service_views(services@);
    let mut at: usize = 0;
    while at < services.len()
        invariant
            at <= services@.len(),
            views == crate::outway::config::spec_service_views(services@),
            spec_find_service(views, name@, 0) == spec_find_service(views, name@, at as int),
        decreases services@.len() - at,
    {
        if same_text(services[at].name.as_str(), name) {
            assert(views[at as int] == services@[at as int]@);
            return Some(&services[at]);
        }
        assert(views[at as int].name != name@);
        at += 1;
    }
    None
}

impl RoutingTable {
    /// A table without routes.
    pub fn new() -> (table: Self)
        ensures
            table@ == Map::<Seq<char>, Seq<ServiceView>>::empty(),
    {
        RoutingTable { config: Config::default() }
    }

    /// Takes one event in. A published configuration replaces the one
    /// before as a whole; missed publications leave it, because stale
    /// routes are better than none; the end of the channel leaves it for
    /// good. Returns whether more events are to be awaited.
    pub fn handle_event(&mut self, event: ChannelEvent) -> (more: bool)
        ensures
            final(self)@ == spec_routes_after(old(self)@, event@),
            more == !(event@ is Closed),
    {
        match event {
            ChannelEvent::Config(config) => {
                self.config = config;
                true
            },
            ChannelEvent::Lagged => true,
            ChannelEvent::Closed => false,
        }
    }

    /// Where a request for a service of an organization goes.
    pub fn resolve(&self, organization: &str, service: &str) -> (resolution: Resolution)
        ensures
            resolution@ == spec_resolve(self@, organization@, service@),
    {
        match self.config.get(organization) {
            None => Resolution::NotFound,
            Some(services) => match find_service(services, service) {
                None => Resolution::NotFound,
                Some(found) => {
                    if found.inways.len() == 0 {
                        return Resolution::NoInway;
                    }
                    let mut url = found.inways[0].address.clone();
                    url.append(found.name.as_str());
                    proof {
                        reveal_strlit("/");
                        assert("/"@ =~= seq!['/']);
                    }
                    url.append("/");
                    Resolution::Upstream(url)
                },
            },
        }
    }
}

/// After any events, the configuration that routes is the one that was
/// published last: a lookup never goes by an older configuration.
pub proof fn lemma_routes_follow_last_publication(
    routes: Map<Seq<char>, Seq<ServiceView>>,
    events: Seq<ChannelEventView>,
    last: int,
)
    requires
        0 <= last < events.len(),
        events[last] is Config,
        forall|i: int| last < i < events.len() ==> !(#[trigger] events[i] is Config),
    ensures
        spec_routes_after_all(routes, events) == events[last]->Config_0,
    decreases events.len(),
{
    if last < events.len() - 1 {
        let shorter = events.drop_last();
        assert(!(events[events.len() - 1] is Config));
        assert forall|i: int| last < i < shorter.len() implies !(#[trigger] shorter[i] is Config) by {
            assert(!(events[i] is Config));
        }
        lemma_routes_follow_last_publication(routes, shorter, last);
    }
}

/// What the listener of an outway does with a request.
#[derive(Debug, Clone)]
pub enum Route {
    /// It forwards the request to a service of an organization, with the
    /// path behind the name of the service.
    Proxy { organization: String, service: String, tail: String },
    /// It answers that there is no such resource.
    NotFound,
}

/// A route as plain values.
pub enum RouteView {
    Proxy { organization: Seq<char>, service: Seq<char>, tail: Seq<char> },
    NotFound,
}

impl View for Route {
    type V = RouteView;

    open spec fn view(&self) -> RouteView {
        match self {
            Route::Proxy { organization, service, tail } => RouteView::Proxy {
                organization: organization@,
                service: service@,
                tail: tail@,
            },
            Route::NotFound => RouteView::NotFound,
        }
    }
}

/// The route of a request by its path: `/<organization>/<service>/<rest>`
/// goes to the service of the organization with `<rest>` as its path. A
/// path without these two segments has no route.
pub open spec fn spec_route(path: Seq<char>) -> RouteView {
    if path.len() == 0 || path[0] != '/' {
        RouteView::NotFound
    } else {
        match spec_segment_at(path, 1) {
            None => RouteView::NotFound,
            Some((organization, service_at)) => match spec_segment_at(path, service_at) {
                None => RouteView::NotFound,
                Some((service, tail_at)) => RouteView::Proxy {
                    organization,
                    service,
                    tail: spec_tail_from(path, tail_at),
                },
            },
        }
    }
}

/// Finds the route of a request by its path.
pub fn route(path: &str) -> (found: Route)
    ensures
        found@ == spec_route(path@),
{
    if !is_rooted(path) {
        return Route::NotFound;
    }
    match segment_at(path, 1) {
        None => Route::NotFound,
        Some((organization, service_at)) => match segment_at(path, service_at) {
            None => Route::NotFound,
            Some((service, tail_at)) => Route::Proxy {
                organization,
                service,
                tail: tail_from(path, tail_at),
            },
        },
    }
}

/// What the client of an outway presents and trusts, each certificate and
/// the key in DER: the chain of the organization's certificate and the
/// root, the key of the organization, and the root as the only authority.
#[derive(Debug, Clone)]
pub struct ClientIdentity {
    pub cert_chain_der: Vec<Vec<u8>>,
    pub key_der: Vec<u8>,
    pub root_der: Vec<u8>,
}

/// The identity that the documents of a pair give, for each outcome of
/// decoding them: the bundle is decoded first, then the key, then the
/// root, and the first document that is refused ends the work.
pub open spec fn spec_client_identity(pair: TlsPair, identity: Result<ClientIdentity, TlsError>) -> bool {
    match spec_pem_parse_many(spec_pem_bundle(pair.cert_pem@, pair.root_pem@)) {
        None => identity matches Err(TlsError::Document(_)),
        Some(chain) => match spec_pem_parse(pair.key_pem@) {
            None => identity matches Err(TlsError::Document(_)),
            Some(key) => match spec_pem_parse(pair.root_pem@) {
                None => identity matches Err(TlsError::Document(_)),
                Some(root) => {
                    &&& identity matches Ok(made)
                    &&& spec_byte_strings(made.cert_chain_der@) == chain
                    &&& made.key_der@ == key
                    &&& made.root_der@ == root
                },
            },
        },
    }
}

/// The listener of an outway, as far as the identity of its client goes.
#[derive(Debug, Clone)]
pub struct Server {
    tls_pair: TlsPair,
}

impl Server {
    /// The TLS material of the organization.
    pub closed spec fn spec_tls_pair(&self) -> TlsPair {
        self.tls_pair
    }

    /// A listener with the TLS material of the organization.
    pub fn new(tls_pair: TlsPair) -> (server: Self)
        ensures
            server.spec_tls_pair() == tls_pair,
    {
        Self { tls_pair }
    }

    /// The identity with which the outway calls the inways of the mesh.
    pub fn client_identity(&self) -> (identity: Result<ClientIdentity, TlsError>)
        ensures
            spec_client_identity(self.spec_tls_pair(), identity),
    {
        let bundle = self.tls_pair.bundle();
        let cert_chain_der = match parse_pem_many(bundle.as_slice()) {
            Ok(chain) => chain,
            Err(reason) => {
                return Err(TlsError::Document(reason));
            },
        };
        let key_der = match parse_pem(self.tls_pair.key_pem.as_slice()) {
            Ok(key) => key,
            Err(reason) => {
                return Err(TlsError::Document(reason));
            },
        };
        let root_der = match parse_pem(self.tls_pair.root_pem.as_slice()) {
            Ok(root) => root,
            Err(reason) => {
                return Err(TlsError::Document(reason));
            },
        };
        Ok(ClientIdentity { cert_chain_der, key_der, root_der })
    }
}

} // verus!
