use nlx_gateway::outway::broadcast::{Broadcast, REGISTRATION_INTERVAL_SECS};
use nlx_gateway::outway::config::{entry_digest, state_code, Config, Costs, Organization, State};
use nlx_gateway::outway::config_poller::{
    convert_inway, convert_service, map_config, normalize_address, serial_number_of, ConfigPoller,
    ListServicesResponse, ListedInway, ListedService,
};
use nlx_gateway::outway::server::{route, ChannelEvent, Resolution, Route, RoutingTable};
use nlx_gateway::reverse_proxy::compose_url;

fn normalized(address: &str) -> String {
    normalize_address(address.to_string())
}

#[test]
fn address_without_scheme_gets_https() {
    assert_eq!(normalized("example.org"), "https://example.org/");
    assert_eq!(normalized("example.org/"), "https://example.org/");
    assert_eq!(normalized("example.org:8443"), "https://example.org:8443/");
    assert_eq!(normalized("example.org/base"), "https://example.org/base/");
    assert_eq!(normalized(""), "https://");
    assert_eq!(normalized("/"), "https:///");
    assert_eq!(normalized(":/"), "https://:/");
    assert_eq!(normalized("a:/b"), "https://a:/b/");
}

#[test]
fn address_with_scheme_keeps_it() {
    assert_eq!(normalized("http://example.org"), "http://example.org/");
    assert_eq!(normalized("http://example.org/"), "http://example.org/");
    assert_eq!(normalized("https://example.org"), "https://example.org/");
    assert_eq!(normalized("https://example.org/x/"), "https://example.org/x/");
    assert_eq!(normalized("ftp://example.org"), "ftp://example.org/");
    assert_eq!(normalized("://"), "://");
    assert_eq!(normalized("x://"), "x://");
    assert_eq!(normalized("host/path?next=http://other"), "host/path?next=http://other/");
}

#[test]
fn normalizing_twice_changes_nothing() {
    for address in [
        "example.org",
        "example.org/",
        "http://example.org",
        "https://example.org/a",
        "",
        "/",
        "://",
        "ftp://x",
        "h\u{f6}st.example",
        "a:/b",
    ] {
        let once = normalized(address);
        assert_eq!(normalize_address(once.clone()), once, "{}", address);
        assert!(once.ends_with('/'), "{}", address);
        assert!(once.contains("://"), "{}", address);
    }
}

#[test]
fn normalized_address_of_a_plain_host_starts_with_https() {
    for address in ["example.org", "", "a/b", "http://x", "https://x"] {
        let once = normalized(address);
        assert!(once.starts_with("http://") || once.starts_with("https://"), "{}", address);
    }
}

#[test]
fn state_of_a_number() {
    assert_eq!(State::from(0), State::Unknown);
    assert_eq!(State::from(1), State::Up);
    assert_eq!(State::from(2), State::Down);
    assert_eq!(State::from(3), State::Unknown);
    assert_eq!(State::from(-1), State::Unknown);
    assert_eq!(State::from(i32::MAX), State::Unknown);
    assert_eq!(state_code(State::Unknown), 0);
    assert_eq!(state_code(State::Up), 1);
    assert_eq!(state_code(State::Down), 2);
}

fn listed(serial: &str, name: &str, addresses: &[&str]) -> ListedService {
    ListedService {
        name: name.to_string(),
        documentation_url: format!("https://docs.example/{}", name),
        api_specification_type: "OpenAPI3".to_string(),
        internal: false,
        public_support_contact: "help@example.org".to_string(),
        inways: addresses
            .iter()
            .map(|address| ListedInway { address: address.to_string(), state: 1 })
            .collect(),
        costs: Some(Costs { one_time: 1, monthly: 2, request: 3 }),
        organization: Some(Organization {
            name: format!("org-{}", serial),
            serial_number: serial.to_string(),
        }),
    }
}

fn response(services: Vec<ListedService>) -> ListServicesResponse {
    ListServicesResponse { services }
}

const ORG_1: &str = "00000000000000000001";
const ORG_2: &str = "00000000000000000002";

#[test]
fn serial_number_of_a_listed_service() {
    assert_eq!(serial_number_of(&listed(ORG_1, "svc-x", &[])), ORG_1);
    let mut anonymous = listed(ORG_1, "svc-x", &[]);
    anonymous.organization = None;
    assert_eq!(serial_number_of(&anonymous), "");
}

#[test]
fn convert_inway_normalizes_and_reads_the_state() {
    let inway = convert_inway(ListedInway { address: "example.org".to_string(), state: 2 });
    assert_eq!(inway.address, "https://example.org/");
    assert_eq!(inway.state, State::Down);
}

#[test]
fn convert_service_fills_in_what_is_missing() {
    let mut service = listed(ORG_1, "svc-x", &["example.org", "http://second"]);
    service.costs = None;
    service.organization = None;
    service.internal = true;
    let converted = convert_service(service);
    assert_eq!(converted.name, "svc-x");
    assert_eq!(converted.documentation_url, "https://docs.example/svc-x");
    assert_eq!(converted.api_specification_type, "OpenAPI3");
    assert!(converted.internal);
    assert_eq!(converted.public_support_contact, "help@example.org");
    assert_eq!(converted.costs, Costs { one_time: 0, monthly: 0, request: 0 });
    assert_eq!(converted.organization.name, "");
    assert_eq!(converted.organization.serial_number, "");
    assert_eq!(converted.inways.len(), 2);
    assert_eq!(converted.inways[0].address, "https://example.org/");
    assert_eq!(converted.inways[1].address, "http://second/");
    assert_eq!(converted.inways[0].state, State::Up);

    let kept = convert_service(listed(ORG_1, "svc-y", &[]));
    assert_eq!(kept.costs, Costs { one_time: 1, monthly: 2, request: 3 });
    assert_eq!(kept.organization.name, format!("org-{}", ORG_1));
    assert_eq!(kept.organization.serial_number, ORG_1);
    assert!(kept.inways.is_empty());
}

fn names(config: &Config, serial: &str) -> Option<Vec<String>> {
    config.get(serial).map(|services| services.iter().map(|s| s.name.clone()).collect())
}

#[test]
fn map_config_groups_neighbours_by_serial_number() {
    let config = map_config(response(vec![
        listed(ORG_1, "a", &["one.example"]),
        listed(ORG_1, "b", &[]),
        listed(ORG_2, "c", &[]),
        listed(ORG_2, "d", &[]),
        listed(ORG_2, "e", &[]),
    ]));
    assert_eq!(config.services.len(), 2);
    assert_eq!(names(&config, ORG_1), Some(vec!["a".to_string(), "b".to_string()]));
    assert_eq!(
        names(&config, ORG_2),
        Some(vec!["c".to_string(), "d".to_string(), "e".to_string()])
    );
    assert_eq!(names(&config, "00000000000000000003"), None);
    assert_eq!(config.get(ORG_1).unwrap()[0].inways[0].address, "https://one.example/");
}

#[test]
fn map_config_files_services_that_are_no_neighbours_under_one_serial_number() {
    let config = map_config(response(vec![
        listed(ORG_1, "a", &[]),
        listed(ORG_2, "b", &[]),
        listed(ORG_1, "c", &[]),
        listed(ORG_1, "d", &[]),
        listed(ORG_2, "e", &[]),
    ]));
    assert_eq!(config.services.len(), 2);
    assert_eq!(
        names(&config, ORG_1),
        Some(vec!["a".to_string(), "c".to_string(), "d".to_string()])
    );
    assert_eq!(names(&config, ORG_2), Some(vec!["b".to_string(), "e".to_string()]));
}

#[test]
fn map_config_files_services_without_organization_under_the_empty_serial() {
    let mut anonymous = listed(ORG_1, "a", &[]);
    anonymous.organization = None;
    let config = map_config(response(vec![anonymous, listed(ORG_1, "b", &[])]));
    assert_eq!(names(&config, ""), Some(vec!["a".to_string()]));
    assert_eq!(names(&config, ORG_1), Some(vec!["b".to_string()]));
}

#[test]
fn outway_map_config_of_an_empty_answer() {
    let config = map_config(response(Vec::new()));
    assert_eq!(config.services.len(), 0);
    assert_eq!(config.content_hash(), 0);
    assert_eq!(Config::default().services.len(), 0);
}

#[test]
fn content_hash_ignores_the_order_of_the_organizations() {
    let forward = map_config(response(vec![
        listed(ORG_1, "a", &["one.example"]),
        listed(ORG_2, "b", &["two.example"]),
    ]));
    let backward = map_config(response(vec![
        listed(ORG_2, "b", &["two.example"]),
        listed(ORG_1, "a", &["one.example"]),
    ]));
    assert_eq!(forward.services.key_at(0), ORG_1);
    assert_eq!(backward.services.key_at(0), ORG_2);
    assert_eq!(forward.content_hash(), backward.content_hash());
    let first = entry_digest(ORG_1, forward.get(ORG_1).unwrap());
    let second = entry_digest(ORG_2, forward.get(ORG_2).unwrap());
    assert_eq!(forward.content_hash(), first.wrapping_add(second));
}

#[test]
fn content_hash_sees_the_services_and_their_inways() {
    let hash = |services: Vec<ListedService>| map_config(response(services)).content_hash();
    let reference = hash(vec![listed(ORG_1, "a", &["one.example"])]);
    assert_eq!(hash(vec![listed(ORG_1, "a", &["one.example"])]), reference);
    assert_ne!(hash(vec![listed(ORG_1, "b", &["one.example"])]), reference);
    assert_ne!(hash(vec![listed(ORG_2, "a", &["one.example"])]), reference);
    assert_ne!(hash(vec![listed(ORG_1, "a", &["two.example"])]), reference);
    assert_ne!(hash(vec![listed(ORG_1, "a", &[])]), reference);
    assert_ne!(hash(vec![listed(ORG_1, "a", &["one.example", "one.example"])]), reference);
    let mut down = listed(ORG_1, "a", &["one.example"]);
    down.inways[0].state = 2;
    assert_ne!(hash(vec![down]), reference);
    let mut costly = listed(ORG_1, "a", &["one.example"]);
    costly.costs = Some(Costs { one_time: 1, monthly: 2, request: 4 });
    assert_ne!(hash(vec![costly]), reference);
    // within one organization the order of the services counts
    assert_ne!(
        hash(vec![listed(ORG_1, "a", &[]), listed(ORG_1, "b", &[])]),
        hash(vec![listed(ORG_1, "b", &[]), listed(ORG_1, "a", &[])])
    );
}

#[test]
fn outway_content_hash_keeps_neighbouring_texts_apart() {
    let hash = |services: Vec<ListedService>| map_config(response(services)).content_hash();
    let mut first = listed(ORG_1, "svc", &[]);
    first.documentation_url = "doc".to_string();
    first.api_specification_type = "type".to_string();
    let mut second = listed(ORG_1, "svc", &[]);
    second.documentation_url = "doct".to_string();
    second.api_specification_type = "ype".to_string();
    assert_ne!(hash(vec![first]), hash(vec![second]));
}

#[test]
fn outway_poller_publishes_a_content_once() {
    let mut poller = ConfigPoller::new();
    assert_eq!(poller.config_hash(), None);
    let services = || vec![listed(ORG_1, "svc-x", &["example.org"])];
    let first = poller.poll(response(services())).expect("the first poll publishes");
    assert_eq!(first.hash, first.config.content_hash());
    poller.published(first.hash);
    assert_eq!(poller.config_hash(), Some(first.hash));
    assert!(poller.poll(response(services())).is_none());
    assert!(poller.poll(response(services())).is_none());
    let mut more = services();
    more.push(listed(ORG_2, "svc-y", &[]));
    let second = poller.poll(response(more)).expect("a change is published");
    assert_ne!(second.hash, first.hash);
}

#[test]
fn resolution_takes_the_first_service_and_its_first_inway() {
    let mut table = RoutingTable::new();
    assert!(matches!(table.resolve(ORG_1, "svc-x"), Resolution::NotFound));
    let config = map_config(response(vec![
        listed(ORG_1, "svc-x", &["example.org", "other.example"]),
        listed(ORG_1, "svc-x", &["late.example"]),
        listed(ORG_1, "svc-bare", &[]),
        listed(ORG_2, "svc-y", &["http://two.example/base"]),
    ]));
    assert!(table.handle_event(ChannelEvent::Config(config)));
    match table.resolve(ORG_1, "svc-x") {
        Resolution::Upstream(url) => assert_eq!(url, "https://example.org/svc-x/"),
        _ => panic!("the service has an inway"),
    }
    match table.resolve(ORG_2, "svc-y") {
        Resolution::Upstream(url) => assert_eq!(url, "http://two.example/base/svc-y/"),
        _ => panic!("the service has an inway"),
    }
    assert!(matches!(table.resolve(ORG_1, "svc-bare"), Resolution::NoInway));
    assert!(matches!(table.resolve(ORG_1, "svc-y"), Resolution::NotFound));
    assert!(matches!(table.resolve(ORG_2, "svc-x"), Resolution::NotFound));
    assert!(matches!(table.resolve("00000000000000000003", "svc-x"), Resolution::NotFound));
}

#[test]
fn outway_routing_table_follows_the_publications() {
    let mut table = RoutingTable::new();
    table.handle_event(ChannelEvent::Config(map_config(response(vec![listed(
        ORG_1,
        "svc-x",
        &["old.example"],
    )]))));
    assert!(table.handle_event(ChannelEvent::Lagged));
    assert!(matches!(table.resolve(ORG_1, "svc-x"), Resolution::Upstream(_)));
    table.handle_event(ChannelEvent::Config(map_config(response(vec![listed(
        ORG_2,
        "svc-y",
        &["new.example"],
    )]))));
    assert!(matches!(table.resolve(ORG_1, "svc-x"), Resolution::NotFound));
    match table.resolve(ORG_2, "svc-y") {
        Resolution::Upstream(url) => assert_eq!(url, "https://new.example/svc-y/"),
        _ => panic!("the later configuration routes"),
    }
    assert!(!table.handle_event(ChannelEvent::Closed));
    assert!(matches!(table.resolve(ORG_2, "svc-y"), Resolution::Upstream(_)));
}

fn as_proxy(route: Route) -> Option<(String, String, String)> {
    match route {
        Route::Proxy { organization, service, tail } => Some((organization, service, tail)),
        Route::NotFound => None,
    }
}

fn proxy(organization: &str, service: &str, tail: &str) -> Option<(String, String, String)> {
    Some((organization.to_string(), service.to_string(), tail.to_string()))
}

#[test]
fn route_names_organization_service_and_rest() {
    assert_eq!(
        as_proxy(route("/00000000000000000001/svc-x/docs")),
        proxy(ORG_1, "svc-x", "docs")
    );
    assert_eq!(as_proxy(route("/org/svc/a/b/c")), proxy("org", "svc", "a/b/c"));
    assert_eq!(as_proxy(route("/org/svc")), proxy("org", "svc", ""));
    assert_eq!(as_proxy(route("/org/svc/")), proxy("org", "svc", ""));
}

#[test]
fn path_without_two_segments_has_no_route() {
    assert!(matches!(route("/org"), Route::NotFound));
    assert!(matches!(route("/org/"), Route::NotFound));
    assert!(matches!(route("/"), Route::NotFound));
    assert!(matches!(route(""), Route::NotFound));
    assert!(matches!(route("org/svc/x"), Route::NotFound));
    assert!(matches!(route("/org//x"), Route::NotFound));
}

#[test]
fn outway_resolution() {
    // the directory lists one service with the inway address example.org
    let mut poller = ConfigPoller::new();
    let snapshot =
        poller.poll(response(vec![listed(ORG_1, "svc-x", &["example.org"])])).unwrap();
    poller.published(snapshot.hash);
    assert_eq!(snapshot.config.get(ORG_1).unwrap()[0].inways[0].address, "https://example.org/");
    let mut table = RoutingTable::new();
    table.handle_event(ChannelEvent::Config(snapshot.config));

    // GET /00000000000000000001/svc-x/docs
    let (organization, service, tail) =
        as_proxy(route("/00000000000000000001/svc-x/docs")).unwrap();
    let upstream = match table.resolve(&organization, &service) {
        Resolution::Upstream(url) => url,
        _ => panic!("the service is listed"),
    };
    assert_eq!(compose_url(&upstream, &tail, ""), "https://example.org/svc-x/docs");
}

#[test]
fn registration_messages_of_an_outway() {
    assert_eq!(REGISTRATION_INTERVAL_SECS, 10);
    let broadcast =
        Broadcast::new("PEM".to_string(), "my-outway".to_string(), "1.2.3".to_string());
    let registration = broadcast.announce();
    assert_eq!(registration.management.name, "my-outway");
    assert_eq!(registration.management.public_key_pem, "PEM");
    assert_eq!(registration.management.version, "1.2.3");
    assert_eq!(registration.management.self_address_api, "http://localhost");
    assert_eq!(registration.directory.name, "my-outway");
}
