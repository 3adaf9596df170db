//! Turning the management API's answer into an inway configuration and
//! deciding when a new snapshot is published.

use crate::inway::config::{
    lemma_content_hash_ignores_order, lemma_map_hash, lemma_viewed_map, spec_content_hash,
    spec_map_hash, spec_service_entries,
    Config, Service, ServiceView,
};
use crate::text_map::{spec_distinct_keys, spec_map_of, TextMap};
use vstd::prelude::*;

verus! {

/// The question put to the management API: the configuration of the inway
/// of this name.
#[derive(Debug, Clone)]
pub struct GetInwayConfigRequest {
    pub name: String,
}

/// One service in the answer of the management API.
#[derive(Debug, Clone)]
pub struct ConfiguredService {
    pub name: String,
    pub internal: bool,
    pub endpoint_url: String,
    pub documentation_url: String,
    pub tech_support_contact: String,
    pub public_support_contact: String,
    pub one_time_costs: i32,
    pub monthly_costs: i32,
    pub request_costs: i32,
}

impl View for ConfiguredService {
    type V = ServiceView;

    open spec fn view(&self) -> ServiceView {
        ServiceView {
            name: self.name@,
            internal: self.internal,
            endpoint_url: self.endpoint_url@,
            documentation_url: self.documentation_url@,
            tech_support_contact: self.tech_support_contact@,
            public_support_contact: self.public_support_contact@,
            one_time_costs: self.one_time_costs,
            monthly_costs: self.monthly_costs,
            request_costs: self.request_costs,
        }
    }
}

/// The answer of the management API: the services of the inway.
#[derive(Debug, Clone)]
pub struct GetInwayConfigResponse {
    pub services: Vec<ConfiguredService>,
}

impl View for GetInwayConfigResponse {
    type V = Seq<ServiceView>;

    open spec fn view(&self) -> Seq<ServiceView> {
        Seq::new(self.services@.len(), |i: int| self.services@[i]@)
    }
}

/// The configuration that a list of services stands for: each service under
/// its name; of two services with one name the later one stays.
pub open spec fn spec_map_config(services: Seq<ServiceView>) -> Map<Seq<char>, ServiceView>
    decreases services.len(),
{
    if services.len() == 0 {
        Map::empty()
    } else {
        spec_map_config(services.drop_last()).insert(services.last().name, services.last())
    }
}

/// The configuration holds the name of every service of the answer and no
/// other name, and where the answer has no name twice, each name has its
/// own service.
pub proof fn lemma_map_config_by_name(services: Seq<ServiceView>)
    ensures
        forall|i: int|
            0 <= i < services.len() ==> spec_map_config(services).dom().contains(
                (#[trigger] services[i]).name,
            ),
        forall|name: Seq<char>| #[trigger]
            spec_map_config(services).dom().contains(name) ==> exists|i: int|
                0 <= i < services.len() && (#[trigger] services[i]).name == name,
        (forall|i: int, j: int|
            0 <= i < j < services.len() ==> (#[trigger] services[i]).name != (
            #[trigger] services[j]).name) ==> forall|i: int|
            0 <= i < services.len() ==> spec_map_config(services)[(#[trigger] services[i]).name]
                == services[i],
    decreases services.len(),
{
    if services.len() > 0 {
        let shorter = services.drop_last();
        let last = services.last();
        lemma_map_config_by_name(shorter);
        assert forall|i: int| 0 <= i < services.len() implies spec_map_config(
            services,
        ).dom().contains((#[trigger] services[i]).name) by {
            if i < shorter.len() {
                assert(shorter[i] == services[i]);
            }
        }
        assert forall|name: Seq<char>| #[trigger]
            spec_map_config(services).dom().contains(name) implies exists|i: int|
            0 <= i < services.len() && (#[trigger] services[i]).name == name by {
            if name == last.name {
                assert(services[services.len() - 1].name == name);
            } else {
                let i = choose|i: int| 0 <= i < shorter.len() && (#[trigger] shorter[i]).name == name;
                assert(services[i].name == name);
            }
        }
        if forall|i: int, j: int|
            0 <= i < j < services.len() ==> (#[trigger] services[i]).name != (
            #[trigger] services[j]).name {
            assert forall|i: int, j: int| 0 <= i < j < shorter.len() implies (
            #[trigger] shorter[i]).name != (#[trigger] shorter[j]).name by {
                assert(services[i].name != services[j].name);
            }
            assert forall|i: int| 0 <= i < services.len() implies spec_map_config(services)[(
            #[trigger] services[i]).name] == services[i] by {
                if i < shorter.len() {
                    assert(shorter[i] == services[i]);
                    assert(services[i].name != services[services.len() - 1].name);
                }
            }
        }
    }
}

/// Builds the configuration from the answer of the management API.
pub fn map_config(response: GetInwayConfigResponse) -> (config: Config)
    ensures
        config@ == spec_map_config(response@),
{
    let ghost all = response@;
    let mut services: TextMap<Service> = TextMap::new();
    proof {
        lemma_viewed_map(services.entries());
        assert(spec_map_of(spec_service_entries(services.entries())) =~= spec_map_config(
            all.take(0),
        ));
    }
    for s in it: response.services
        invariant
            it.seq().len() == all.len(),
            forall|i: int| 0 <= i < all.len() ==> (#[trigger] it.seq()[i])@ == all[i],
            spec_map_of(spec_service_entries(services.entries())) == spec_map_config(
                all.take(it.index() as int),
            ),
    {
        let ghost done = it.index() as int;
        assert(s@ == all[done]);
        let key = s.name.clone();
        let service = Service {
            name: s.name,
            internal: s.internal,
            endpoint_url: s.endpoint_url,
            documentation_url: s.documentation_url,
            tech_support_contact: s.tech_support_contact,
            public_support_contact: s.public_support_contact,
            one_time_costs: s.one_time_costs,
            monthly_costs: s.monthly_costs,
            request_costs: s.request_costs,
        };
        let ghost before = services.entries();
        services.insert(key, service);
        proof {
            lemma_viewed_map(before);
            lemma_viewed_map(services.entries());
            assert(all.take(done + 1).drop_last() =~= all.take(done));
            assert(all.take(done + 1).last() == all[done]);
            assert(spec_map_of(spec_service_entries(services.entries())) =~= spec_map_config(
                all.take(done),
            ).insert(all[done].name, all[done]));
        }
    }
    assert(all.take(all.len() as int) =~= all);
    Config { services }
}

/// A configuration together with its content hash.
#[derive(Debug, Clone)]
pub struct Snapshot {
    pub config: Config,
    pub hash: u64,
}

/// The part of the inway's polling that decides: the name to ask for and
/// the hash of the configuration that was published last.
#[derive(Debug, Clone)]
pub struct ConfigPoller {
    inway_name: String,
    config_hash: Option<u64>,
}

impl ConfigPoller {
    /// The name of the inway whose configuration is asked for.
    pub closed spec fn spec_inway_name(&self) -> Seq<char> {
        self.inway_name@
    }

    /// The hash of the configuration that was published last, if any was.
    pub closed spec fn spec_config_hash(&self) -> Option<u64> {
        self.config_hash
    }

    /// A poller that has published nothing yet.
    pub fn new(inway_name: String) -> (poller: Self)
        ensures
            poller.spec_inway_name() == inway_name@,
            poller.spec_config_hash() == None::<u64>,
    {
        ConfigPoller { inway_name, config_hash: None }
    }

    /// The question to put to the management API.
    pub fn request(&self) -> (request: GetInwayConfigRequest)
        ensures
            request.name@ == self.spec_inway_name(),
    {
        GetInwayConfigRequest { name: self.inway_name.clone() }
    }

    /// The hash of the configuration that was published last, if any was.
    pub fn config_hash(&self) -> (hash: Option<u64>)
        ensures
            hash == self.spec_config_hash(),
    {
        self.config_hash
    }

    /// One poll, for the answer that the management API gave: the answer is to
    /// be published, with its hash, unless its hash is that of the
    /// configuration published last. Before anything was published every
    /// answer is. Nothing is recorded yet: that is for `published`, once the
    /// configuration has gone out.
    pub fn poll(&self, response: GetInwayConfigResponse) -> (snapshot: Option<Snapshot>)
        ensures
            snapshot is Some <==> spec_publishes(
                self.spec_config_hash(),
                spec_map_config(response@),
            ),
            match snapshot {
                Some(new) => {
                    &&& new.config@ == spec_map_config(response@)
                    &&& new.hash == spec_map_hash(spec_map_config(response@))
                },
                None => true,
            },
    {
        let config = map_config(response);
        let hash = config.content_hash();
        let unchanged = match self.config_hash {
            Some(last) => last == hash,
            None => false,
        };
        if unchanged {
            None
        } else {
            Some(Snapshot { config, hash })
        }
    }

    /// Records that the configuration with this hash went to every
    /// subscriber.
    pub fn published(&mut self, hash: u64)
        ensures
            final(self).spec_config_hash() == Some(hash),
            final(self).spec_inway_name() == old(self).spec_inway_name(),
    {
        self.config_hash = Some(hash);
    }
}

/// What a poller that last published the hash `last` does with a
/// configuration: `true` where it publishes.
pub open spec fn spec_publishes(last: Option<u64>, config: Map<Seq<char>, ServiceView>) -> bool {
    last != Some(spec_map_hash(config))
}

/// A configuration is published once: after it was published, a
/// configuration with the same services is not published again, in
/// whatever order the two keep their entries.
pub proof fn lemma_same_content_not_published_again(
    published: Seq<(Seq<char>, ServiceView)>,
    polled: Seq<(Seq<char>, ServiceView)>,
)
    requires
        spec_distinct_keys(published),
        spec_distinct_keys(polled),
        spec_map_of(published) == spec_map_of(polled),
    ensures
        spec_content_hash(published) == spec_content_hash(polled),
        !spec_publishes(Some(spec_content_hash(published)), spec_map_of(polled)),
{
    lemma_content_hash_ignores_order(published, polled);
    lemma_map_hash(polled);
}

/// No two services of a list have the same name.
pub open spec fn spec_distinct_names(services: Seq<ServiceView>) -> bool {
    forall|i: int, j: int|
        0 <= i < j < services.len() ==> (#[trigger] services[i]).name != (
        #[trigger] services[j]).name
}

/// The order of an answer does not count: two answers with the same
/// services, each name once, stand for the same configuration, so after
/// the one was published the other is not published again.
pub proof fn lemma_same_services_not_published_again(
    published: Seq<ServiceView>,
    polled: Seq<ServiceView>,
)
    requires
        spec_distinct_names(published),
        spec_distinct_names(polled),
        forall|i: int| 0 <= i < published.len() ==> polled.contains(#[trigger] published[i]),
        forall|i: int| 0 <= i < polled.len() ==> published.contains(#[trigger] polled[i]),
    ensures
        spec_map_config(published) == spec_map_config(polled),
        !spec_publishes(
            Some(spec_map_hash(spec_map_config(published))),
            spec_map_config(polled),
        ),
{
    lemma_map_config_by_name(published);
    lemma_map_config_by_name(polled);
    let first = spec_map_config(published);
    let second = spec_map_config(polled);
    assert forall|name: Seq<char>| first.dom().contains(name) implies second.dom().contains(name)
        && second[name] == first[name] by {
        let i = choose|i: int| 0 <= i < published.len() && (#[trigger] published[i]).name == name;
        assert(polled.contains(published[i]));
        let j = choose|j: int| 0 <= j < polled.len() && polled[j] == published[i];
        assert(polled[j].name == name);
        assert(second[polled[j].name] == polled[j]);
        assert(first[published[i].name] == published[i]);
    }
    assert forall|name: Seq<char>| second.dom().contains(name) implies first.dom().contains(
        name,
    ) by {
        let j = choose|j: int| 0 <= j < polled.len() && (#[trigger] polled[j]).name == name;
        assert(published.contains(polled[j]));
        let i = choose|i: int| 0 <= i < published.len() && published[i] == polled[j];
        assert(published[i].name == name);
    }
    assert(first =~= second);
}

} // verus!
