use nlx_gateway::config_poller::Event as RegistrationEvent;
use nlx_gateway::inway::broadcast::{
    check_ack, Action, AnnounceError, Broadcast, Signal, BROADCAST_INTERVAL_SECS,
};
use nlx_gateway::inway::config::{service_digest, Config, Service};
use nlx_gateway::inway::config_poller::{
    map_config, ConfigPoller, ConfiguredService, GetInwayConfigResponse,
};
use nlx_gateway::inway::event::Event;
use nlx_gateway::inway::server::{health_service, route, ChannelEvent, Route, RoutingTable};
use nlx_gateway::reverse_proxy::compose_url;

fn configured(name: &str, endpoint_url: &str) -> ConfiguredService {
    ConfiguredService {
        name: name.to_string(),
        internal: false,
        endpoint_url: endpoint_url.to_string(),
        documentation_url: format!("https://docs.example/{}", name),
        tech_support_contact: "tech@example.org".to_string(),
        public_support_contact: "help@example.org".to_string(),
        one_time_costs: 1,
        monthly_costs: 2,
        request_costs: 3,
    }
}

fn response(services: &[(&str, &str)]) -> GetInwayConfigResponse {
    GetInwayConfigResponse {
        services: services.iter().map(|(name, url)| configured(name, url)).collect(),
    }
}

#[test]
fn default_service_is_empty() {
    let service = Service::default();
    assert_eq!(service.name, "");
    assert!(!service.internal);
    assert_eq!(service.endpoint_url, "");
    assert_eq!(service.documentation_url, "");
    assert_eq!(service.tech_support_contact, "");
    assert_eq!(service.public_support_contact, "");
    assert_eq!(service.one_time_costs, 0);
    assert_eq!(service.monthly_costs, 0);
    assert_eq!(service.request_costs, 0);
    assert_eq!(Config::default().services.len(), 0);
}

#[test]
fn map_config_files_each_service_under_its_name() {
    let config = map_config(response(&[("svc-a", "http://backend/"), ("svc-b", "http://other/")]));
    assert_eq!(config.services.len(), 2);
    let a = config.get("svc-a").unwrap();
    assert_eq!(a.name, "svc-a");
    assert_eq!(a.endpoint_url, "http://backend/");
    assert_eq!(a.documentation_url, "https://docs.example/svc-a");
    assert_eq!(a.tech_support_contact, "tech@example.org");
    assert_eq!(a.public_support_contact, "help@example.org");
    assert_eq!((a.one_time_costs, a.monthly_costs, a.request_costs), (1, 2, 3));
    assert!(!a.internal);
    assert_eq!(config.get("svc-b").unwrap().endpoint_url, "http://other/");
    assert!(config.get("svc-c").is_none());
    assert!(config.get("").is_none());
}

#[test]
fn map_config_keeps_the_later_of_two_services_with_one_name() {
    let config = map_config(response(&[
        ("svc-a", "http://first/"),
        ("svc-b", "http://b/"),
        ("svc-a", "http://second/"),
    ]));
    assert_eq!(config.services.len(), 2);
    assert_eq!(config.get("svc-a").unwrap().endpoint_url, "http://second/");
}

#[test]
fn map_config_of_an_empty_answer() {
    let config = map_config(response(&[]));
    assert_eq!(config.services.len(), 0);
    assert_eq!(config.content_hash(), 0);
}

#[test]
fn content_hash_ignores_the_order_of_the_entries() {
    let forward = map_config(response(&[("a", "http://a/"), ("b", "http://b/"), ("c", "http://c/")]));
    let backward = map_config(response(&[("c", "http://c/"), ("b", "http://b/"), ("a", "http://a/")]));
    let mixed = map_config(response(&[("b", "http://b/"), ("a", "http://a/"), ("c", "http://c/")]));
    assert_eq!(forward.services.key_at(0), "a");
    assert_eq!(backward.services.key_at(0), "c");
    assert_eq!(forward.content_hash(), backward.content_hash());
    assert_eq!(forward.content_hash(), mixed.content_hash());
}

#[test]
fn content_hash_is_the_wrapping_sum_of_the_digests() {
    let config = map_config(response(&[("a", "http://a/"), ("b", "http://b/")]));
    let a = service_digest("a", config.get("a").unwrap());
    let b = service_digest("b", config.get("b").unwrap());
    assert_eq!(config.content_hash(), a.wrapping_add(b));
    let single = map_config(response(&[("a", "http://a/")]));
    assert_eq!(single.content_hash(), a);
}

#[test]
fn content_hash_sees_every_field() {
    let base = configured("a", "http://a/");
    let digest = |service: &ConfiguredService| {
        map_config(GetInwayConfigResponse { services: vec![service.clone()] }).content_hash()
    };
    let reference = digest(&base);
    let mut changed = base.clone();
    changed.endpoint_url = "http://b/".to_string();
    assert_ne!(digest(&changed), reference);
    let mut changed = base.clone();
    changed.internal = true;
    assert_ne!(digest(&changed), reference);
    let mut changed = base.clone();
    changed.documentation_url = "x".to_string();
    assert_ne!(digest(&changed), reference);
    let mut changed = base.clone();
    changed.tech_support_contact = "x".to_string();
    assert_ne!(digest(&changed), reference);
    let mut changed = base.clone();
    changed.public_support_contact = "x".to_string();
    assert_ne!(digest(&changed), reference);
    let mut changed = base.clone();
    changed.one_time_costs = -1;
    assert_ne!(digest(&changed), reference);
    let mut changed = base.clone();
    changed.monthly_costs = i32::MAX;
    assert_ne!(digest(&changed), reference);
    let mut changed = base.clone();
    changed.request_costs = i32::MIN;
    assert_ne!(digest(&changed), reference);
    let mut changed = base.clone();
    changed.name = "b".to_string();
    assert_ne!(digest(&changed), reference);
}

#[test]
fn content_hash_keeps_neighbouring_texts_apart() {
    let digest = |service: &ConfiguredService| {
        map_config(GetInwayConfigResponse { services: vec![service.clone()] }).content_hash()
    };
    let mut first = configured("a", "http://a/");
    first.documentation_url = "x".to_string();
    let mut second = configured("a", "http://a/x");
    second.documentation_url = String::new();
    assert_ne!(digest(&first), digest(&second));

    let mut first = configured("a", "http://a/");
    first.tech_support_contact = "ab".to_string();
    first.public_support_contact = "c".to_string();
    let mut second = configured("a", "http://a/");
    second.tech_support_contact = "a".to_string();
    second.public_support_contact = "bc".to_string();
    assert_ne!(digest(&first), digest(&second));
}

#[test]
fn poller_publishes_a_content_once() {
    let mut poller = ConfigPoller::new("my-inway".to_string());
    assert_eq!(poller.request().name, "my-inway");
    assert_eq!(poller.config_hash(), None);
    let services = [("svc-a", "http://backend/")];

    // three polls with the same services: one publication
    let first = poller.poll(response(&services)).expect("the first poll publishes");
    assert_eq!(first.hash, first.config.content_hash());
    assert_eq!(first.config.get("svc-a").unwrap().endpoint_url, "http://backend/");
    poller.published(first.hash);
    assert_eq!(poller.config_hash(), Some(first.hash));
    assert!(poller.poll(response(&services)).is_none());
    assert!(poller.poll(response(&services)).is_none());

    // the fourth poll adds a service: one more publication
    let more = [("svc-a", "http://backend/"), ("svc-b", "http://other/")];
    let second = poller.poll(response(&more)).expect("a change is published");
    assert_ne!(second.hash, first.hash);
    assert_eq!(second.config.services.len(), 2);
    poller.published(second.hash);
    assert!(poller.poll(response(&more)).is_none());
    // the same services in another order are no change
    let turned = [("svc-b", "http://other/"), ("svc-a", "http://backend/")];
    assert!(poller.poll(response(&turned)).is_none());
}

#[test]
fn poller_publishes_again_while_nothing_was_recorded() {
    let poller = ConfigPoller::new("my-inway".to_string());
    let services = [("svc-a", "http://backend/")];
    assert!(poller.poll(response(&services)).is_some());
    // the publication failed, so nothing was recorded
    assert!(poller.poll(response(&services)).is_some());
}

#[test]
fn first_poll_publishes_even_an_empty_configuration() {
    let poller = ConfigPoller::new("my-inway".to_string());
    let snapshot = poller.poll(response(&[])).expect("the first poll publishes");
    assert_eq!(snapshot.hash, 0);
}

#[test]
fn routing_table_follows_the_publications() {
    let mut table = RoutingTable::new();
    assert_eq!(table.upstream("svc-a"), None);
    assert!(!table.health("svc-a").healthy);

    let first = map_config(response(&[("svc-a", "http://backend/"), ("svc-old", "http://old/")]));
    assert!(table.handle_event(ChannelEvent::Config(first)));
    assert_eq!(table.upstream("svc-a"), Some("http://backend/".to_string()));
    assert_eq!(table.upstream("svc-old"), Some("http://old/".to_string()));
    assert!(table.health("svc-a").healthy);
    assert_eq!(table.health("svc-a").version, "");
    assert!(!table.health("missing").healthy);

    // missed publications leave the routes
    assert!(table.handle_event(ChannelEvent::Lagged));
    assert_eq!(table.upstream("svc-a"), Some("http://backend/".to_string()));

    // a later publication replaces the table as a whole
    let second = map_config(response(&[("svc-a", "http://moved/"), ("svc-b", "http://b/")]));
    assert!(table.handle_event(ChannelEvent::Config(second)));
    assert_eq!(table.upstream("svc-a"), Some("http://moved/".to_string()));
    assert_eq!(table.upstream("svc-b"), Some("http://b/".to_string()));
    assert_eq!(table.upstream("svc-old"), None);

    // the end of the channel freezes the table
    assert!(!table.handle_event(ChannelEvent::Closed));
    assert_eq!(table.upstream("svc-a"), Some("http://moved/".to_string()));
}

#[test]
fn routing_table_from_config() {
    let config = map_config(response(&[("svc-a", "http://backend/")]));
    let table = RoutingTable::from_config(&config);
    assert_eq!(table.upstream("svc-a"), Some("http://backend/".to_string()));
    assert_eq!(table.upstream("svc-b"), None);
    assert_eq!(RoutingTable::from_config(&Config::default()).upstream("svc-a"), None);
}

fn proxy(service: &str, tail: &str) -> (String, String) {
    (service.to_string(), tail.to_string())
}

fn as_proxy(route: Route) -> Option<(String, String)> {
    match route {
        Route::Proxy { service, tail } => Some((service, tail)),
        _ => None,
    }
}

fn as_health(route: Route) -> Option<String> {
    match route {
        Route::Health { service } => Some(service),
        _ => None,
    }
}

#[test]
fn route_of_a_proxied_request() {
    assert_eq!(as_proxy(route(true, "/svc-a/users")), Some(proxy("svc-a", "users")));
    assert_eq!(as_proxy(route(false, "/svc-a/users/1/edit")), Some(proxy("svc-a", "users/1/edit")));
    assert_eq!(as_proxy(route(true, "/svc-a")), Some(proxy("svc-a", "")));
    assert_eq!(as_proxy(route(true, "/svc-a/")), Some(proxy("svc-a", "")));
    assert_eq!(as_proxy(route(true, "/svc-a//x")), Some(proxy("svc-a", "/x")));
    assert_eq!(as_proxy(route(true, "/missing/anything")), Some(proxy("missing", "anything")));
    assert_eq!(as_proxy(route(true, "/dienst/pad/\u{e9}")), Some(proxy("dienst", "pad/\u{e9}")));
}

#[test]
fn route_of_a_health_question() {
    assert_eq!(as_health(route(true, "/.nlx/health/svc-a")), Some("svc-a".to_string()));
    assert_eq!(as_health(route(true, "/.nlx/health/svc-a/more")), Some("svc-a".to_string()));
    assert_eq!(health_service("/.nlx/health/svc-a"), Some("svc-a".to_string()));
    assert_eq!(health_service("/.nlx/health/"), None);
    assert_eq!(health_service("/.nlx/health"), None);
    assert_eq!(health_service("/.nlx/other/svc-a"), None);
    assert_eq!(health_service("/svc-a/health/x"), None);
    assert_eq!(health_service(".nlx/health/svc-a"), None);
}

#[test]
fn health_question_needs_get_and_a_service() {
    assert_eq!(
        as_proxy(route(false, "/.nlx/health/svc-a")),
        Some(proxy(".nlx", "health/svc-a"))
    );
    assert_eq!(as_proxy(route(true, "/.nlx/health")), Some(proxy(".nlx", "health")));
    assert_eq!(as_proxy(route(true, "/.nlx/health/")), Some(proxy(".nlx", "health/")));
    assert_eq!(as_proxy(route(true, "/.nlx/other/svc-a")), Some(proxy(".nlx", "other/svc-a")));
}

#[test]
fn path_without_a_service_has_no_route() {
    assert!(matches!(route(true, "/"), Route::NotFound));
    assert!(matches!(route(true, ""), Route::NotFound));
    assert!(matches!(route(true, "//svc-a"), Route::NotFound));
    assert!(matches!(route(false, "svc-a/users"), Route::NotFound));
}

#[test]
fn inway_happy_path() {
    // the management API answers with one service; the poller publishes once
    let mut poller = ConfigPoller::new("my-inway".to_string());
    let snapshot = poller.poll(response(&[("svc-a", "http://backend/")])).unwrap();
    poller.published(snapshot.hash);
    let mut table = RoutingTable::new();
    table.handle_event(ChannelEvent::Config(snapshot.config));

    // GET /svc-a/users?id=1
    let (service, tail) = as_proxy(route(true, "/svc-a/users")).unwrap();
    let upstream = table.upstream(&service).unwrap();
    assert_eq!(compose_url(&upstream, &tail, "id=1"), "http://backend/users?id=1");
}

#[test]
fn unknown_service_is_not_found() {
    let table = RoutingTable::new();
    let (service, _) = as_proxy(route(true, "/missing/anything")).unwrap();
    assert_eq!(table.upstream(&service), None);
}

fn broadcast() -> Broadcast {
    Broadcast::new("my-inway".to_string(), "inway.example:443".to_string(), "1.2.3".to_string())
}

#[test]
fn registration_with_the_management_api() {
    let message = broadcast().register_inway("host-1".to_string());
    assert_eq!(message.name, "my-inway");
    assert_eq!(message.version, "1.2.3");
    assert_eq!(message.hostname, "host-1");
    assert_eq!(message.self_address, "inway.example:443");
    assert!(message.services.is_empty());
    assert_eq!(message.ip_address, "");
}

#[test]
fn announcement_lists_the_services_of_the_configuration() {
    let config = map_config(response(&[("svc-a", "http://backend/"), ("svc-b", "http://b/")]));
    let announcement = broadcast().announce(&config);
    let request = &announcement.request;
    assert_eq!(request.inway_address, "inway.example:443");
    assert_eq!(request.inway_name, "my-inway");
    assert!(request.is_organization_inway);
    assert_eq!(request.management_api_proxy_address, "");
    assert_eq!(request.services.len(), 2);
    let a = &request.services[0];
    assert_eq!(a.name, "svc-a");
    assert_eq!(a.documentation_url, "https://docs.example/svc-a");
    assert_eq!(a.api_specification_type, "");
    assert_eq!(a.api_specification_document_url, "");
    assert!(!a.internal);
    assert_eq!(a.public_support_contact, "help@example.org");
    assert_eq!(a.tech_support_contact, "tech@example.org");
    assert_eq!((a.one_time_costs, a.monthly_costs, a.request_costs), (1, 2, 3));
    assert_eq!(request.services[1].name, "svc-b");
    let metadata: Vec<(&str, &str)> =
        announcement.metadata.iter().map(|m| (m.key.as_str(), m.value.as_str())).collect();
    assert_eq!(metadata, vec![("nlx-component", "inway"), ("nlx-version", "1.2.3")]);
}

#[test]
fn nothing_is_announced_before_a_configuration() {
    assert_eq!(BROADCAST_INTERVAL_SECS, 10);
    let mut broadcast = broadcast();
    assert!(matches!(broadcast.step(Signal::Tick), Action::Idle));
    assert!(matches!(broadcast.step(Signal::Tick), Action::Idle));
    assert!(matches!(broadcast.step(Signal::Lagged), Action::Idle));
    assert!(matches!(broadcast.step(Signal::Tick), Action::Idle));

    let config = map_config(response(&[("svc-a", "http://backend/")]));
    assert!(matches!(broadcast.step(Signal::Config(config)), Action::Idle));
    match broadcast.step(Signal::Tick) {
        Action::Announce(announcement) => {
            assert_eq!(announcement.request.services.len(), 1);
            assert_eq!(announcement.request.services[0].name, "svc-a");
        }
        _ => panic!("a configuration is held, so the tick announces"),
    }
    // every further tick announces again
    assert!(matches!(broadcast.step(Signal::Tick), Action::Announce(_)));
}

#[test]
fn step_announces_with_the_metadata() {
    let mut broadcast = nlx_gateway::inway::Broadcast::new(
        "my-inway".to_string(),
        "inway.example:443".to_string(),
        "9.9.9".to_string(),
    );
    broadcast.step(Signal::Config(map_config(response(&[("svc-a", "http://a/")]))));
    match broadcast.step(Signal::Tick) {
        Action::Announce(announcement) => {
            let metadata: Vec<(&str, &str)> =
                announcement.metadata.iter().map(|m| (m.key.as_str(), m.value.as_str())).collect();
            assert_eq!(metadata, vec![("nlx-component", "inway"), ("nlx-version", "9.9.9")]);
        }
        _ => panic!("a configuration is held, so the tick announces"),
    }
}

#[test]
fn later_configuration_replaces_the_held_one() {
    let mut broadcast = broadcast();
    broadcast.step(Signal::Config(map_config(response(&[("svc-a", "http://a/")]))));
    broadcast.step(Signal::Config(map_config(response(&[("svc-b", "http://b/")]))));
    match broadcast.step(Signal::Tick) {
        Action::Announce(announcement) => {
            assert_eq!(announcement.request.services.len(), 1);
            assert_eq!(announcement.request.services[0].name, "svc-b");
        }
        _ => panic!("a configuration is held"),
    }
}

#[test]
fn missed_publications_pause_the_announcing() {
    let mut broadcast = broadcast();
    broadcast.step(Signal::Config(map_config(response(&[("svc-a", "http://a/")]))));
    assert!(matches!(broadcast.step(Signal::Tick), Action::Announce(_)));
    assert!(matches!(broadcast.step(Signal::Lagged), Action::Idle));
    assert!(matches!(broadcast.step(Signal::Tick), Action::Idle));
    broadcast.step(Signal::Config(map_config(response(&[("svc-a", "http://a/")]))));
    assert!(matches!(broadcast.step(Signal::Tick), Action::Announce(_)));
}

#[test]
fn closed_channel_stops_the_broadcaster() {
    let mut broadcast = broadcast();
    assert!(matches!(broadcast.step(Signal::Closed), Action::Stop));
    broadcast.step(Signal::Config(map_config(response(&[("svc-a", "http://a/")]))));
    assert!(matches!(broadcast.step(Signal::Closed), Action::Stop));
}

#[test]
fn restart_forgets_the_configuration() {
    let mut broadcast = broadcast();
    broadcast.step(Signal::Config(map_config(response(&[("svc-a", "http://a/")]))));
    broadcast.restart();
    assert!(matches!(broadcast.step(Signal::Tick), Action::Idle));
    assert_eq!(broadcast.register_inway("h".to_string()).name, "my-inway");
}

#[test]
fn answer_with_an_error_text_is_a_failure() {
    assert!(check_ack("").is_ok());
    match check_ack("no such inway") {
        Err(AnnounceError::Refused(text)) => assert_eq!(text, "no such inway"),
        Ok(()) => panic!("an error text is a failure"),
    }
    assert!(check_ack(" ").is_err());
}

#[test]
fn startup_registration_message() {
    let poller = nlx_gateway::config_poller::ConfigPoller::new(
        "inway.example:443".to_string(),
        "https://management.example".to_string(),
    );
    assert_eq!(poller.management_api_addr(), "https://management.example");
    let message = poller.inway("host-1".to_string());
    assert_eq!(message.name, "NLX-Gateway");
    assert_eq!(message.version, "0.0.1");
    assert_eq!(message.hostname, "host-1");
    assert_eq!(message.self_address, "inway.example:443");
    assert!(message.services.is_empty());
    assert_eq!(message.ip_address, "");
    assert_eq!(poller.registered(), RegistrationEvent::InwayRegistered);
}

#[test]
fn events_of_an_inway() {
    let updated = Event::ConfigUpdated(map_config(response(&[("svc-a", "http://a/")])));
    match updated {
        Event::ConfigUpdated(config) => assert_eq!(config.services.len(), 1),
        Event::InwayRegistered => panic!("the event carries a configuration"),
    }
    assert!(matches!(Event::InwayRegistered, Event::InwayRegistered));
}
