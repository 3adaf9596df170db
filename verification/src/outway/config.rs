//! The configuration of an outway: the services of the mesh as the
//! directory lists them, by the serial number of their organization.

use crate::digest::{
    add_digest, lemma_weight_sum_of_map, spec_bool_bytes, spec_count_bytes, spec_fold_sum,
    spec_i32_bytes, spec_text_bytes, spec_weight_sum, write_bool, write_byte, write_count,
    write_i32, write_text,
};
use crate::text_map::{
    lemma_index_of_entry, spec_distinct_keys, spec_has_key, spec_index_of, spec_map_of, TextMap,
};
use std::collections::hash_map::DefaultHasher;
use std::hash::Hasher;
use vstd::prelude::*;
use vstd::std_specs::hash::DefaultHasherAdditionalSpecFns;

verus! {

/// Whether an inway is known to be reachable.
#[derive(Debug, Clone, Copy, PartialEq, Eq, Structural, Hash)]
pub enum State {
    Unknown,
    Up,
    Down,
}

/// The state that a number of the directory stands for: 1 is up, 2 is
/// down, every other number is unknown.
pub open spec fn spec_state_from(num: i32) -> State {
    if num == 1 {
        State::Up
    } else if num == 2 {
        State::Down
    } else {
        State::Unknown
    }
}

/// The number that stands for a state in a content hash.
pub open spec fn spec_state_code(state: State) -> u8 {
    match state {
        State::Unknown => 0,
        State::Up => 1,
        State::Down => 2,
    }
}

impl From<i32> for State {
    fn from(num: i32) -> (state: Self) {
        match num {
            1 => Self::Up,
            2 => Self::Down,
            _ => Self::Unknown,
        }
    }
}

impl vstd::std_specs::convert::FromSpecImpl<i32> for State {
    open spec fn obeys_from_spec() -> bool {
        true
    }

    open spec fn from_spec(num: i32) -> State {
        spec_state_from(num)
    }
}

/// The number that stands for a state in a content hash.
pub fn state_code(state: State) -> (code: u8)
    ensures
        code == spec_state_code(state),
{
    match state {
        State::Unknown => 0,
        State::Up => 1,
        State::Down => 2,
    }
}

/// An inway that offers a service: its address, which is a base URL that
/// ends in `/`, and its state.
#[derive(Debug, Clone)]
pub struct Inway {
    pub address: String,
    pub state: State,
}

/// An inway as plain values.
pub struct InwayView {
    pub address: Seq<char>,
    pub state: State,
}

impl View for Inway {
    type V = InwayView;

    open spec fn view(&self) -> InwayView {
        InwayView { address: self.address@, state: self.state }
    }
}

/// What the use of a service costs.
#[derive(Debug, Clone, Copy, PartialEq, Eq, Structural, Hash)]
pub struct Costs {
    pub one_time: i32,
    pub monthly: i32,
    pub request: i32,
}

/// The organization that offers a service.
#[derive(Debug, Clone)]
pub struct Organization {
    pub name: String,
    pub serial_number: String,
}

/// An organization as plain values.
pub struct OrganizationView {
    pub name: Seq<char>,
    pub serial_number: Seq<char>,
}

impl View for Organization {
    type V = OrganizationView;

    open spec fn view(&self) -> OrganizationView {
        OrganizationView { name: self.name@, serial_number: self.serial_number@ }
    }
}

/// A service of the mesh as an outway sees it.
#[derive(Debug, Clone)]
pub struct Service {
    pub name: String,
    pub documentation_url: String,
    pub api_specification_type: String,
    pub internal: bool,
    pub public_support_contact: String,
    pub inways: Vec<Inway>,
    pub costs: Costs,
    pub organization: Organization,
}

/// A service as plain values.
pub struct ServiceView {
    pub name: Seq<char>,
    pub documentation_url: Seq<char>,
    pub api_specification_type: Seq<char>,
    pub internal: bool,
    pub public_support_contact: Seq<char>,
    pub inways: Seq<InwayView>,
    pub costs: Costs,
    pub organization: OrganizationView,
}

/// Inways as plain values.
pub open spec fn spec_inway_views(inways: Seq<Inway>) -> Seq<InwayView> {
    Seq::new(inways.len(), |i: int| inways[i]@)
}

/// Services as plain values.
pub open spec fn spec_service_views(services: Seq<Service>) -> Seq<ServiceView> {
    Seq::new(services.len(), |i: int| services[i]@)
}

impl View for Service {
    type V = ServiceView;

    open spec fn view(&self) -> ServiceView {
        ServiceView {
            name: self.name@,
            documentation_url: self.documentation_url@,
            api_specification_type: self.api_specification_type@,
            internal: self.internal,
            public_support_contact: self.public_support_contact@,
            inways: spec_inway_views(self.inways@),
            costs: self.costs,
            organization: self.organization@,
        }
    }
}

/// What is written into the hasher for one inway.
pub open spec fn spec_inway_writes(inway: InwayView) -> Seq<Seq<u8>> {
    seq![spec_text_bytes(inway.address), seq![spec_state_code(inway.state)]]
}

/// What is written into the hasher for a list of inways, one after the
/// other.
pub open spec fn spec_inways_writes(inways: Seq<InwayView>) -> Seq<Seq<u8>>
    decreases inways.len(),
{
    if inways.len() == 0 {
        Seq::empty()
    } else {
        spec_inways_writes(inways.drop_last()) + spec_inway_writes(inways.last())
    }
}

/// What is written into the hasher for one service: its texts, the number
/// of its inways and the inways, its costs and its organization.
pub open spec fn spec_service_writes(service: ServiceView) -> Seq<Seq<u8>> {
    seq![
        spec_text_bytes(service.name),
        spec_text_bytes(service.documentation_url),
        spec_text_bytes(service.api_specification_type),
        spec_bool_bytes(service.internal),
        spec_text_bytes(service.public_support_contact),
        spec_count_bytes(service.inways.len()),
    ] + spec_inways_writes(service.inways) + seq![
        spec_i32_bytes(service.costs.one_time),
        spec_i32_bytes(service.costs.monthly),
        spec_i32_bytes(service.costs.request),
        spec_text_bytes(service.organization.name),
        spec_text_bytes(service.organization.serial_number),
    ]
}

/// What is written into the hasher for a list of services, one after the
/// other.
pub open spec fn spec_services_writes(services: Seq<ServiceView>) -> Seq<Seq<u8>>
    decreases services.len(),
{
    if services.len() == 0 {
        Seq::empty()
    } else {
        spec_services_writes(services.drop_last()) + spec_service_writes(services.last())
    }
}

/// What is written into the hasher for one entry: the serial number, the
/// number of services and the services.
pub open spec fn spec_entry_writes(key: Seq<char>, services: Seq<ServiceView>) -> Seq<Seq<u8>> {
    seq![spec_text_bytes(key), spec_count_bytes(services.len())] + spec_services_writes(services)
}

/// The digest of one entry.
pub open spec fn spec_entry_digest(key: Seq<char>, services: Seq<ServiceView>) -> u64 {
    DefaultHasher::spec_finish(spec_entry_writes(key, services))
}

/// The content hash of a list of entries: the sum of their digests modulo
/// 2^64.
pub open spec fn spec_content_hash(entries: Seq<(Seq<char>, Seq<ServiceView>)>) -> u64 {
    spec_fold_sum(
        spec_weight_sum(
            entries,
            |key: Seq<char>, services: Seq<ServiceView>| spec_entry_digest(key, services),
        ),
    )
}

/// The content hash of a configuration as a map: the hash of any list of
/// entries, each key once, that stands for the map. Every such list has
/// the same hash.
pub open spec fn spec_map_hash(config: Map<Seq<char>, Seq<ServiceView>>) -> u64 {
    spec_content_hash(
        choose|entries: Seq<(Seq<char>, Seq<ServiceView>)>|
            spec_distinct_keys(entries) && spec_map_of(entries) == config,
    )
}

/// The entries of a map of services as plain values.
pub open spec fn spec_entry_views(entries: Seq<(Seq<char>, Vec<Service>)>) -> Seq<
    (Seq<char>, Seq<ServiceView>),
> {
    Seq::new(entries.len(), |i: int| (entries[i].0, spec_service_views(entries[i].1@)))
}

/// Writes one service into a hasher.
fn write_service(hasher: &mut DefaultHasher, service: &Service)
    ensures
        final(hasher)@ == old(hasher)@ + spec_service_writes(service@),
{
    let ghost start = hasher@;
    write_text(hasher, service.name.as_str());
    write_text(hasher, service.documentation_url.as_str());
    write_text(hasher, service.api_specification_type.as_str());
    write_bool(hasher, service.internal);
    write_text(hasher, service.public_support_contact.as_str());
    write_count(hasher, service.inways.len());
    let ghost head = hasher@;
    let ghost inways = service@.inways;
    let mut at: usize = 0;
    while at < service.inways.len()
        invariant
            at <= service.inways@.len(),
            inways == spec_inway_views(service.inways@),
            hasher@ == head + spec_inways_writes(inways.take(at as int)),
        decreases service.inways@.len() - at,
    {
        let inway = &service.inways[at];
        write_text(hasher, inway.address.as_str());
        write_byte(hasher, state_code(inway.state));
        proof {
            assert(inways.take(at + 1).drop_last() =~= inways.take(at as int));
            assert(inways.take(at + 1).last() == inway@);
            assert(hasher@ =~= head + spec_inways_writes(inways.take(at + 1)));
        }
        at += 1;
    }
    assert(inways.take(at as int) =~= inways);
    write_i32(hasher, service.costs.one_time);
    write_i32(hasher, service.costs.monthly);
    write_i32(hasher, service.costs.request);
    write_text(hasher, service.organization.name.as_str());
    write_text(hasher, service.organization.serial_number.as_str());
    assert(hasher@ =~= start + spec_service_writes(service@));
}

/// The digest of one entry.
pub fn entry_digest(key: &str, services: &Vec<Service>) -> (digest: u64)
    ensures
        digest == spec_entry_digest(key@, spec_service_views(services@)),
{
    let ghost views = spec_service_views(services@);
    let mut hasher = DefaultHasher::new();
    write_text(&mut hasher, key);
    write_count(&mut hasher, services.len());
    let ghost head = hasher@;
    let mut at: usize = 0;
    while at < services.len()
        invariant
            at <= services@.len(),
            views == spec_service_views(services@),
            hasher@ == head + spec_services_writes(views.take(at as int)),
        decreases services@.len() - at,
    {
        write_service(&mut hasher, &services[at]);
        proof {
            assert(views.take(at + 1).drop_last() =~= views.take(at as int));
            assert(views.take(at + 1).last() == services@[at as int]@);
            assert(hasher@ =~= head + spec_services_writes(views.take(at + 1)));
        }
        at += 1;
    }
    assert(views.take(at as int) =~= views);
    assert(hasher@ =~= spec_entry_writes(key@, views));
    hasher.finish()
}

/// The services of the mesh, those of one organization under its serial
/// number.
#[derive(Debug, Clone)]
pub struct Config {
    pub services: TextMap<Vec<Service>>,
}

impl View for Config {
    type V = Map<Seq<char>, Seq<ServiceView>>;

    /// The services as a map of plain values.
    open spec fn view(&self) -> Map<Seq<char>, Seq<ServiceView>> {
        spec_map_of(self.spec_entries())
    }
}

impl Default for Config {
    /// A configuration without services.
    fn default() -> (config: Self)
        ensures
            config@ == Map::<Seq<char>, Seq<ServiceView>>::empty(),
            config.spec_entries() == Seq::<(Seq<char>, Seq<ServiceView>)>::empty(),
    {
        let config = Config { services: TextMap::new() };
        assert(config.spec_entries() =~= Seq::<(Seq<char>, Seq<ServiceView>)>::empty());
        assert(config@ =~= Map::<Seq<char>, Seq<ServiceView>>::empty());
        config
    }
}

impl Config {
    /// The entries as plain values, in the order in which they are kept.
    pub open spec fn spec_entries(&self) -> Seq<(Seq<char>, Seq<ServiceView>)> {
        spec_entry_views(self.services.entries())
    }

    /// The 64-bit content hash of the configuration. It is the same for
    /// every order in which the entries are kept.
    pub fn content_hash(&self) -> (hash: u64)
        ensures
            hash == spec_map_hash(self@),
            hash == spec_content_hash(self.spec_entries()),
            spec_distinct_keys(self.spec_entries()),
    {
        let count = self.services.len();
        proof {
            lemma_viewed_map(self.services.entries());
        }
        let ghost entries = self.spec_entries();
        let ghost weight = |key: Seq<char>, services: Seq<ServiceView>|
            spec_entry_digest(key, services);
        let mut hash: u64 = 0;
        let mut at: usize = 0;
        while at < count
            invariant
                at <= count,
                count == self.services.entries().len(),
                entries == self.spec_entries(),
                weight == (|key: Seq<char>, services: Seq<ServiceView>|
                    spec_entry_digest(key, services)),
                hash == spec_fold_sum(spec_weight_sum(entries.take(at as int), weight)),
            decreases count - at,
        {
            let digest = entry_digest(self.services.key_at(at), self.services.value_at(at));
            proof {
                assert(entries.take(at + 1).drop_last() =~= entries.take(at as int));
                assert(entries.take(at + 1).last() == entries[at as int]);
            }
            hash = add_digest(hash, digest, Ghost(spec_weight_sum(entries.take(at as int), weight)));
            at += 1;
        }
        assert(entries.take(count as int) =~= entries);
        proof {
            lemma_map_hash(entries);
        }
        hash
    }

    /// The services of an organization, if the configuration holds its
    /// serial number.
    pub fn get(&self, serial_number: &str) -> (services: Option<&Vec<Service>>)
        ensures
            match services {
                Some(found) => self@.dom().contains(serial_number@) && spec_service_views(found@)
                    == self@[serial_number@],
                None => !self@.dom().contains(serial_number@),
            },
    {
        let found = self.services.get(serial_number);
        proof {
            lemma_viewed_map(self.services.entries());
        }
        found
    }
}

/// The map of the entries as plain values is the map of the entries with
/// each list of services taken as plain values.
pub proof fn lemma_viewed_map(entries: Seq<(Seq<char>, Vec<Service>)>)
    requires
        spec_distinct_keys(entries),
    ensures
        spec_distinct_keys(spec_entry_views(entries)),
        spec_map_of(spec_entry_views(entries)).dom() == spec_map_of(entries).dom(),
        forall|key: Seq<char>| #[trigger]
            spec_map_of(entries).dom().contains(key) ==> spec_map_of(spec_entry_views(entries))[key]
                == spec_service_views(spec_map_of(entries)[key]@),
{
    let viewed = spec_entry_views(entries);
    assert forall|i: int, j: int| 0 <= i < j < viewed.len() implies (#[trigger] viewed[i]).0 != (
    #[trigger] viewed[j]).0 by {
        assert(entries[i].0 != entries[j].0);
    }
    assert forall|key: Seq<char>| spec_has_key(viewed, key) <==> spec_has_key(entries, key) by {
        if spec_has_key(viewed, key) {
            let i = spec_index_of(viewed, key);
            assert(entries[i].0 == key);
        }
        if spec_has_key(entries, key) {
            let i = spec_index_of(entries, key);
            assert(viewed[i].0 == key);
        }
    }
    assert(spec_map_of(viewed).dom() =~= spec_map_of(entries).dom());
    assert forall|key: Seq<char>| #[trigger]
        spec_map_of(entries).dom().contains(key) implies spec_map_of(viewed)[key]
        == spec_service_views(spec_map_of(entries)[key]@) by {
        let i = spec_index_of(entries, key);
        lemma_index_of_entry(entries, i);
        lemma_index_of_entry(viewed, i);
    }
}

/// The hash of a map is the hash of each list of entries, each key once,
/// that stands for it.
pub proof fn lemma_map_hash(entries: Seq<(Seq<char>, Seq<ServiceView>)>)
    requires
        spec_distinct_keys(entries),
    ensures
        spec_map_hash(spec_map_of(entries)) == spec_content_hash(entries),
{
    let chosen = choose|chosen: Seq<(Seq<char>, Seq<ServiceView>)>|
        spec_distinct_keys(chosen) && spec_map_of(chosen) == spec_map_of(entries);
    lemma_content_hash_ignores_order(chosen, entries);
}

/// The content hash of a configuration depends on the map of its services
/// alone: two lists of entries that stand for the same map have the same
/// hash, in whatever order each of them is kept.
pub proof fn lemma_content_hash_ignores_order(
    first: Seq<(Seq<char>, Seq<ServiceView>)>,
    second: Seq<(Seq<char>, Seq<ServiceView>)>,
)
    requires
        spec_distinct_keys(first),
        spec_distinct_keys(second),
        spec_map_of(first) == spec_map_of(second),
    ensures
        spec_content_hash(first) == spec_content_hash(second),
{
    lemma_weight_sum_of_map(
        first,
        second,
        |key: Seq<char>, services: Seq<ServiceView>| spec_entry_digest(key, services),
    );
}

} // verus!
