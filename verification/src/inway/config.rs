//! The configuration of an inway: the services it offers, by name.

use crate::digest::{
    add_digest, lemma_weight_sum_of_map, spec_bool_bytes, spec_fold_sum, spec_i32_bytes,
    spec_text_bytes, spec_weight_sum, write_bool, write_i32, write_text,
};
use crate::text_map::{
    lemma_index_of_entry, spec_distinct_keys, spec_has_key, spec_index_of, spec_map_of, TextMap,
};
use std::collections::hash_map::DefaultHasher;
use std::hash::Hasher;
use vstd::prelude::*;
use vstd::std_specs::hash::DefaultHasherAdditionalSpecFns;

verus! {

/// A service that an inway offers to the mesh.
#[derive(Debug, Clone)]
pub struct Service {
    pub name: String,
    pub internal: bool,
    pub endpoint_url: String,
    pub documentation_url: String,
    pub tech_support_contact: String,
    pub public_support_contact: String,
    pub one_time_costs: i32,
    pub monthly_costs: i32,
    pub request_costs: i32,
}

/// A service as plain values.
pub struct ServiceView {
    pub name: Seq<char>,
    pub internal: bool,
    pub endpoint_url: Seq<char>,
    pub documentation_url: Seq<char>,
    pub tech_support_contact: Seq<char>,
    pub public_support_contact: Seq<char>,
    pub one_time_costs: i32,
    pub monthly_costs: i32,
    pub request_costs: i32,
}

impl View for Service {
    type V = ServiceView;

    open spec fn view(&self) -> ServiceView {
        ServiceView {
            name: self.name@,
            internal: self.internal,
            endpoint_url: self.endpoint_url@,
            documentation_url: self.documentation_url@,
            tech_support_contact: self.tech_support_contact@,
            public_support_contact: self.public_support_contact@,
            one_time_costs: self.one_time_costs,
            monthly_costs: self.monthly_costs,
            request_costs: self.request_costs,
        }
    }
}

impl Default for Service {
    /// A service with empty texts, not internal, without costs.
    fn default() -> (service: Self)
        ensures
            service@ == (ServiceView {
                name: Seq::empty(),
                internal: false,
                endpoint_url: Seq::empty(),
                documentation_url: Seq::empty(),
                tech_support_contact: Seq::empty(),
                public_support_contact: Seq::empty(),
                one_time_costs: 0,
                monthly_costs: 0,
                request_costs: 0,
            }),
    {
        Service {
            name: String::new(),
            internal: false,
            endpoint_url: String::new(),
            documentation_url: String::new(),
            tech_support_contact: String::new(),
            public_support_contact: String::new(),
            one_time_costs: 0,
            monthly_costs: 0,
            request_costs: 0,
        }
    }
}

/// What is written into the hasher for one entry: the key, then the fields
/// of the service in the order in which they are declared.
pub open spec fn spec_service_writes(key: Seq<char>, service: ServiceView) -> Seq<Seq<u8>> {
    seq![
        spec_text_bytes(key),
        spec_text_bytes(service.name),
        spec_bool_bytes(service.internal),
        spec_text_bytes(service.endpoint_url),
        spec_text_bytes(service.documentation_url),
        spec_text_bytes(service.tech_support_contact),
        spec_text_bytes(service.public_support_contact),
        spec_i32_bytes(service.one_time_costs),
        spec_i32_bytes(service.monthly_costs),
        spec_i32_bytes(service.request_costs),
    ]
}

/// The digest of one entry.
pub open spec fn spec_service_digest(key: Seq<char>, service: ServiceView) -> u64 {
    DefaultHasher::spec_finish(spec_service_writes(key, service))
}

/// The content hash of a list of entries: the sum of their digests modulo
/// 2^64.
pub open spec fn spec_content_hash(entries: Seq<(Seq<char>, ServiceView)>) -> u64 {
    spec_fold_sum(
        spec_weight_sum(entries, |key: Seq<char>, service: ServiceView| spec_service_digest(key, service)),
    )
}

/// The content hash of a configuration as a map: the hash of any list of
/// entries, each key once, that stands for the map. Every such list has
/// the same hash.
pub open spec fn spec_map_hash(config: Map<Seq<char>, ServiceView>) -> u64 {
    spec_content_hash(
        choose|entries: Seq<(Seq<char>, ServiceView)>|
            spec_distinct_keys(entries) && spec_map_of(entries) == config,
    )
}

/// The entries of a map of services as plain values.
pub open spec fn spec_service_entries(entries: Seq<(Seq<char>, Service)>) -> Seq<
    (Seq<char>, ServiceView),
> {
    Seq::new(entries.len(), |i: int| (entries[i].0, entries[i].1@))
}

/// The digest of one entry.
pub fn service_digest(key: &str, service: &Service) -> (digest: u64)
    ensures
        digest == spec_service_digest(key@, service@),
{
    let mut hasher = DefaultHasher::new();
    write_text(&mut hasher, key);
    write_text(&mut hasher, service.name.as_str());
    write_bool(&mut hasher, service.internal);
    write_text(&mut hasher, service.endpoint_url.as_str());
    write_text(&mut hasher, service.documentation_url.as_str());
    write_text(&mut hasher, service.tech_support_contact.as_str());
    write_text(&mut hasher, service.public_support_contact.as_str());
    write_i32(&mut hasher, service.one_time_costs);
    write_i32(&mut hasher, service.monthly_costs);
    write_i32(&mut hasher, service.request_costs);
    assert(hasher@ =~= spec_service_writes(key@, service@));
    hasher.finish()
}

/// The services of an inway, each under its name.
#[derive(Debug, Clone)]
pub struct Config {
    pub services: TextMap<Service>,
}

impl View for Config {
    type V = Map<Seq<char>, ServiceView>;

    /// The services as a map of plain values.
    open spec fn view(&self) -> Map<Seq<char>, ServiceView> {
        spec_map_of(self.spec_entries())
    }
}

impl Default for Config {
    /// A configuration without services.
    fn default() -> (config: Self)
        ensures
            config@ == Map::<Seq<char>, ServiceView>::empty(),
            config.spec_entries() == Seq::<(Seq<char>, ServiceView)>::empty(),
    {
        let config = Config { services: TextMap::new() };
        assert(config.spec_entries() =~= Seq::<(Seq<char>, ServiceView)>::empty());
        assert(config@ =~= Map::<Seq<char>, ServiceView>::empty());
        config
    }
}

impl Config {
    /// The entries as plain values, in the order in which they are kept.
    pub open spec fn spec_entries(&self) -> Seq<(Seq<char>, ServiceView)> {
        spec_service_entries(self.services.entries())
    }

    /// The 64-bit content hash of the configuration. It is the same for
    /// every order in which the entries are kept.
    pub fn content_hash(&self) -> (hash: u64)
        ensures
            hash == spec_map_hash(self@),
            hash == spec_content_hash(self.spec_entries()),
            spec_distinct_keys(self.spec_entries()),
    {
        let count = self.services.len();
        proof {
            lemma_viewed_map(self.services.entries());
        }
        let ghost entries = self.spec_entries();
        let ghost weight = |key: Seq<char>, service: ServiceView| spec_service_digest(key, service);
        let mut hash: u64 = 0;
        let mut at: usize = 0;
        while at < count
            invariant
                at <= count,
                count == self.services.entries().len(),
                entries == self.spec_entries(),
                weight == (|key: Seq<char>, service: ServiceView| spec_service_digest(key, service)),
                hash == spec_fold_sum(spec_weight_sum(entries.take(at as int), weight)),
            decreases count - at,
        {
            let digest = service_digest(self.services.key_at(at), self.services.value_at(at));
            proof {
                assert(entries.take(at + 1).drop_last() =~= entries.take(at as int));
                assert(entries.take(at + 1).last() == entries[at as int]);
            }
            hash = add_digest(hash, digest, Ghost(spec_weight_sum(entries.take(at as int), weight)));
            at += 1;
        }
        assert(entries.take(count as int) =~= entries);
        proof {
            lemma_map_hash(entries);
        }
        hash
    }

    /// The service of a name, if the configuration holds the name.
    pub fn get(&self, name: &str) -> (service: Option<&Service>)
        ensures
            match service {
                Some(found) => self@.dom().contains(name@) && found@ == self@[name@],
                None => !self@.dom().contains(name@),
            },
    {
        let found = self.services.get(name);
        proof {
            lemma_viewed_map(self.services.entries());
        }
        found
    }
}

/// The map of the entries as plain values is the map of the entries with
/// each service taken as plain values.
pub proof fn lemma_viewed_map(entries: Seq<(Seq<char>, Service)>)
    requires
        spec_distinct_keys(entries),
    ensures
        spec_distinct_keys(spec_service_entries(entries)),
        spec_map_of(spec_service_entries(entries)).dom() == spec_map_of(entries).dom(),
        forall|key: Seq<char>| #[trigger]
            spec_map_of(entries).dom().contains(key) ==> spec_map_of(
                spec_service_entries(entries),
            )[key] == spec_map_of(entries)[key]@,
{
    let viewed = spec_service_entries(entries);
    assert forall|i: int, j: int| 0 <= i < j < viewed.len() implies (#[trigger] viewed[i]).0 != (
    #[trigger] viewed[j]).0 by {
        assert(entries[i].0 != entries[j].0);
    }
    assert forall|key: Seq<char>| spec_has_key(viewed, key) <==> spec_has_key(entries, key) by {
        if spec_has_key(viewed, key) {
            let i = spec_index_of(viewed, key);
            assert(entries[i].0 == key);
        }
        if spec_has_key(entries, key) {
            let i = spec_index_of(entries, key);
            assert(viewed[i].0 == key);
        }
    }
    assert(spec_map_of(viewed).dom() =~= spec_map_of(entries).dom());
    assert forall|key: Seq<char>| #[trigger]
        spec_map_of(entries).dom().contains(key) implies spec_map_of(viewed)[key] == spec_map_of(
        entries,
    )[key]@ by {
        let i = spec_index_of(entries, key);
        lemma_index_of_entry(entries, i);
        lemma_index_of_entry(viewed, i);
    }
}

/// The hash of a map is the hash of each list of entries, each key once,
/// that stands for it.
pub proof fn lemma_map_hash(entries: Seq<(Seq<char>, ServiceView)>)
    requires
        spec_distinct_keys(entries),
    ensures
        spec_map_hash(spec_map_of(entries)) == spec_content_hash(entries),
{
    let chosen = choose|chosen: Seq<(Seq<char>, ServiceView)>|
        spec_distinct_keys(chosen) && spec_map_of(chosen) == spec_map_of(entries);
    lemma_content_hash_ignores_order(chosen, entries);
}

/// The content hash of a configuration depends on the map of its services
/// alone: two lists of entries that stand for the same map have the same
/// hash, in whatever order each of them is kept.
pub proof fn lemma_content_hash_ignores_order(
    first: Seq<(Seq<char>, ServiceView)>,
    second: Seq<(Seq<char>, ServiceView)>,
)
    requires
        spec_distinct_keys(first),
        spec_distinct_keys(second),
        spec_map_of(first) == spec_map_of(second),
    ensures
        spec_content_hash(first) == spec_content_hash(second),
{
    lemma_weight_sum_of_map(
        first,
        second,
        |key: Seq<char>, service: ServiceView| spec_service_digest(key, service),
    );
}

} // verus!
