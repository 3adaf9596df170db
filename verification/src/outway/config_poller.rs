//! Turning the directory's service list into an outway configuration and
//! deciding when a new snapshot is published.

use crate::outway::config::{
    lemma_content_hash_ignores_order, lemma_map_hash, lemma_viewed_map, spec_content_hash,
    spec_entry_views, spec_map_hash, spec_service_views, spec_state_from, Config, Costs, Inway,
    InwayView, Organization, OrganizationView, Service, ServiceView, State,
};
use crate::text::{
    chars_of, contains, ends_with_char, spec_contains, spec_ends_with_char, spec_occurs_at,
    spec_starts_with,
};
use crate::text_map::{spec_distinct_keys, spec_map_of, TextMap};
use itertools::Itertools;
use vstd::prelude::*;

verus! {

/// The characters `://`, which separate a scheme from the rest of a URL.
pub open spec fn scheme_separator() -> Seq<char> {
    seq![':', '/', '/']
}

/// The characters `https://`.
pub open spec fn https_prefix() -> Seq<char> {
    seq!['h', 't', 't', 'p', 's', ':', '/', '/']
}

/// The characters `http://`.
pub open spec fn http_prefix() -> Seq<char> {
    seq!['h', 't', 't', 'p', ':', '/', '/']
}

/// An address with `https://` put in front where it names no scheme.
pub open spec fn spec_with_scheme(address: Seq<char>) -> Seq<char> {
    if spec_contains(address, scheme_separator()) {
        address
    } else {
        https_prefix() + address
    }
}

/// A base URL fit for joining a path to: it names a scheme and ends in `/`.
pub open spec fn spec_normalize_address(address: Seq<char>) -> Seq<char> {
    let with_scheme = spec_with_scheme(address);
    if spec_ends_with_char(with_scheme, '/') {
        with_scheme
    } else {
        with_scheme.push('/')
    }
}

/// Normalizes the address of an inway as the directory advertises it:
/// `https://` is put in front where the address holds no `://`, and `/` is
/// appended where it does not end in one.
pub fn normalize_address(address: String) -> (normalized: String)
    ensures
        normalized@ == spec_normalize_address(address@),
{
    let mut separator: Vec<char> = Vec::new();
    separator.push(':');
    separator.push('/');
    separator.push('/');
    assert(separator@ =~= scheme_separator());

    let mut normalized = address;
    let chars = chars_of(normalized.as_str());
    if !contains(&chars, &separator) {
        let mut prefixed = String::from_str("https://");
        proof {
            reveal_strlit("https://");
            assert("https://"@ =~= https_prefix());
        }
        prefixed.append(normalized.as_str());
        normalized = prefixed;
    }
    let chars = chars_of(normalized.as_str());
    if !ends_with_char(&chars, '/') {
        proof {
            reveal_strlit("/");
            assert("/"@ =~= seq!['/']);
            assert(normalized@ + seq!['/'] =~= normalized@.push('/'));
        }
        normalized.append("/");
    }
    normalized
}

/// A normalized address holds a scheme separator and ends in `/`.
pub proof fn lemma_normalized_shape(address: Seq<char>)
    ensures
        spec_contains(spec_normalize_address(address), scheme_separator()),
        spec_ends_with_char(spec_normalize_address(address), '/'),
{
    let with_scheme = spec_with_scheme(address);
    let normalized = spec_normalize_address(address);
    let sep = scheme_separator();
    assert(spec_contains(with_scheme, sep)) by {
        if spec_contains(address, sep) {
        } else {
            assert(with_scheme.subrange(5, 8) =~= sep);
            assert(spec_occurs_at(with_scheme, sep, 5));
        }
    }
    let at = choose|at: int| spec_occurs_at(with_scheme, sep, at);
    assert(normalized.subrange(at, at + sep.len()) =~= with_scheme.subrange(at, at + sep.len()));
    assert(spec_occurs_at(normalized, sep, at));
}

/// Normalizing an address a second time changes nothing.
pub proof fn lemma_normalize_idempotent(address: Seq<char>)
    ensures
        spec_normalize_address(spec_normalize_address(address)) == spec_normalize_address(address),
{
    lemma_normalized_shape(address);
}

/// An address that names no scheme, or that begins with `http://` or
/// `https://`, is normalized to one that begins with `http://` or `https://`.
pub proof fn lemma_normalized_scheme(address: Seq<char>)
    requires
        !spec_contains(address, scheme_separator()) || spec_starts_with(address, http_prefix())
            || spec_starts_with(address, https_prefix()),
    ensures
        spec_starts_with(spec_normalize_address(address), http_prefix()) || spec_starts_with(
            spec_normalize_address(address),
            https_prefix(),
        ),
{
    let with_scheme = spec_with_scheme(address);
    let normalized = spec_normalize_address(address);
    if !spec_contains(address, scheme_separator()) {
        assert(normalized.subrange(0, 8) =~= https_prefix());
    } else if spec_starts_with(address, http_prefix()) {
        assert(normalized.subrange(0, 7) =~= address.subrange(0, 7));
    } else {
        assert(normalized.subrange(0, 8) =~= address.subrange(0, 8));
    }
}

/// The question put to the directory: every service of the mesh.
#[derive(Debug, Clone)]
pub struct ListServicesRequest {
}

/// One inway in the answer of the directory: its address as it was
/// registered, and its state as a number.
#[derive(Debug, Clone)]
pub struct ListedInway {
    pub address: String,
    pub state: i32,
}

/// A listed inway as plain values.
pub struct ListedInwayView {
    pub address: Seq<char>,
    pub state: i32,
}

impl View for ListedInway {
    type V = ListedInwayView;

    open spec fn view(&self) -> ListedInwayView {
        ListedInwayView { address: self.address@, state: self.state }
    }
}

/// One service in the answer of the directory. The costs and the
/// organization may be missing.
#[derive(Debug, Clone)]
pub struct ListedService {
    pub name: String,
    pub documentation_url: String,
    pub api_specification_type: String,
    pub internal: bool,
    pub public_support_contact: String,
    pub inways: Vec<ListedInway>,
    pub costs: Option<Costs>,
    pub organization: Option<Organization>,
}

/// A listed service as plain values.
pub struct ListedServiceView {
    pub name: Seq<char>,
    pub documentation_url: Seq<char>,
    pub api_specification_type: Seq<char>,
    pub internal: bool,
    pub public_support_contact: Seq<char>,
    pub inways: Seq<ListedInwayView>,
    pub costs: Option<Costs>,
    pub organization: Option<OrganizationView>,
}

/// Listed inways as plain values.
pub open spec fn spec_listed_inway_views(inways: Seq<ListedInway>) -> Seq<ListedInwayView> {
    Seq::new(inways.len(), |i: int| inways[i]@)
}

/// Listed services as plain values.
pub open spec fn spec_listed_views(services: Seq<ListedService>) -> Seq<ListedServiceView> {
    Seq::new(services.len(), |i: int| services[i]@)
}

impl View for ListedService {
    type V = ListedServiceView;

    open spec fn view(&self) -> ListedServiceView {
        ListedServiceView {
            name: self.name@,
            documentation_url: self.documentation_url@,
            api_specification_type: self.api_specification_type@,
            internal: self.internal,
            public_support_contact: self.public_support_contact@,
            inways: spec_listed_inway_views(self.inways@),
            costs: self.costs,
            organization: match self.organization {
                Some(organization) => Some(organization@),
                None => None,
            },
        }
    }
}

/// The answer of the directory: the services of the mesh, in its order.
#[derive(Debug, Clone)]
pub struct ListServicesResponse {
    pub services: Vec<ListedService>,
}

impl View for ListServicesResponse {
    type V = Seq<ListedServiceView>;

    open spec fn view(&self) -> Seq<ListedServiceView> {
        spec_listed_views(self.services@)
    }
}

/// The serial number under which a listed service is filed: that of its
/// organization, or the empty text where the organization is missing.
pub open spec fn spec_serial_of(service: ListedServiceView) -> Seq<char> {
    match service.organization {
        Some(organization) => organization.serial_number,
        None => Seq::empty(),
    }
}

/// Groups of listed services as plain values.
pub open spec fn spec_group_views(groups: Seq<(String, Vec<ListedService>)>) -> Seq<
    (Seq<char>, Seq<ListedServiceView>),
> {
    Seq::new(groups.len(), |i: int| (groups[i].0@, spec_listed_views(groups[i].1@)))
}

/// The inway of the configuration that a listed inway stands for: the
/// address is normalized, the number is read as a state.
pub open spec fn spec_convert_inway(inway: ListedInwayView) -> InwayView {
    InwayView { address: spec_normalize_address(inway.address), state: spec_state_from(inway.state) }
}

/// The service of the configuration that a listed service stands for.
/// Missing costs are no costs; a missing organization has empty texts.
pub open spec fn spec_convert_service(service: ListedServiceView) -> ServiceView {
    ServiceView {
        name: service.name,
        documentation_url: service.documentation_url,
        api_specification_type: service.api_specification_type,
        internal: service.internal,
        public_support_contact: service.public_support_contact,
        inways: Seq::new(service.inways.len(), |i: int| spec_convert_inway(service.inways[i])),
        costs: match service.costs {
            Some(costs) => costs,
            None => Costs { one_time: 0, monthly: 0, request: 0 },
        },
        organization: match service.organization {
            Some(organization) => organization,
            None => OrganizationView { name: Seq::empty(), serial_number: Seq::empty() },
        },
    }
}

/// The services of the configuration that a list of listed services stands
/// for, one for one.
pub open spec fn spec_convert_services(services: Seq<ListedServiceView>) -> Seq<ServiceView> {
    Seq::new(services.len(), |i: int| spec_convert_service(services[i]))
}

/// Some service of the list is filed under the serial number.
pub open spec fn spec_has_serial(services: Seq<ListedServiceView>, serial: Seq<char>) -> bool {
    exists|i: int| 0 <= i < services.len() && spec_serial_of(#[trigger] services[i]) == serial
}

/// The services of the list that are filed under the serial number, in
/// the order of the list.
pub open spec fn spec_of_serial(services: Seq<ListedServiceView>, serial: Seq<char>) -> Seq<
    ListedServiceView,
> {
    services.filter(|service: ListedServiceView| spec_serial_of(service) == serial)
}

/// The configuration that the answer of the directory stands for: under
/// each serial number that occurs in the answer, the services of that
/// serial number, converted, in the order of the answer.
pub open spec fn spec_map_config(services: Seq<ListedServiceView>) -> Map<
    Seq<char>,
    Seq<ServiceView>,
> {
    Map::new(
        |serial: Seq<char>| spec_has_serial(services, serial),
        |serial: Seq<char>| spec_convert_services(spec_of_serial(services, serial)),
    )
}

/// The services of a list of runs, one run after the other.
pub open spec fn spec_flatten(groups: Seq<(Seq<char>, Seq<ListedServiceView>)>) -> Seq<
    ListedServiceView,
>
    decreases groups.len(),
{
    if groups.len() == 0 {
        Seq::empty()
    } else {
        spec_flatten(groups.drop_last()) + groups.last().1
    }
}

/// A run is not empty, and each of its services is filed under the serial
/// number of the run.
pub open spec fn spec_is_run(group: (Seq<char>, Seq<ListedServiceView>)) -> bool {
    &&& group.1.len() > 0
    &&& forall|i: int| 0 <= i < group.1.len() ==> spec_serial_of(#[trigger] group.1[i]) == group.0
}

/// A list of groups is the list of the runs of a list of services: the
/// groups hold the services of the list in its order, each group is a
/// run, and two groups that follow each other have different serial
/// numbers.
pub open spec fn spec_is_grouping(
    services: Seq<ListedServiceView>,
    groups: Seq<(Seq<char>, Seq<ListedServiceView>)>,
) -> bool {
    &&& spec_flatten(groups) == services
    &&& forall|g: int| 0 <= g < groups.len() ==> spec_is_run(#[trigger] groups[g])
    &&& forall|g: int| 0 <= g < groups.len() - 1 ==> (#[trigger] groups[g]).0 != groups[g + 1].0
}

/// Of the services of a run, those filed under the serial number of the
/// run are all of them, and none is filed under another serial number.
pub proof fn lemma_of_serial_in_run(run: Seq<ListedServiceView>, key: Seq<char>, serial: Seq<char>)
    requires
        forall|i: int| 0 <= i < run.len() ==> spec_serial_of(#[trigger] run[i]) == key,
    ensures
        serial == key ==> spec_of_serial(run, serial) == run,
        serial != key ==> spec_of_serial(run, serial) == Seq::<ListedServiceView>::empty(),
    decreases run.len(),
{
    let filed = |service: ListedServiceView| spec_serial_of(service) == serial;
    if run.len() == 0 {
        assert(run.filter(filed).len() <= run.len()) by {
            run.lemma_filter_len(filed);
        }
        assert(run.filter(filed) =~= run);
    } else {
        let shorter = run.drop_last();
        assert forall|i: int| 0 <= i < shorter.len() implies spec_serial_of(#[trigger] shorter[i])
            == key by {
            assert(shorter[i] == run[i]);
        }
        lemma_of_serial_in_run(shorter, key, serial);
        shorter.lemma_filter_push(run.last(), filed);
        assert(shorter.push(run.last()) =~= run);
        assert(spec_serial_of(run[run.len() - 1]) == key);
    }
}

/// Where no service of a list is filed under a serial number, the
/// services of that serial number are none.
pub proof fn lemma_of_serial_absent(services: Seq<ListedServiceView>, serial: Seq<char>)
    requires
        !spec_has_serial(services, serial),
    ensures
        spec_of_serial(services, serial) == Seq::<ListedServiceView>::empty(),
    decreases services.len(),
{
    let filed = |service: ListedServiceView| spec_serial_of(service) == serial;
    if services.len() == 0 {
        assert(services.filter(filed).len() <= services.len()) by {
            services.lemma_filter_len(filed);
        }
    } else {
        let shorter = services.drop_last();
        assert(!spec_has_serial(shorter, serial)) by {
            if spec_has_serial(shorter, serial) {
                let i = choose|i: int|
                    0 <= i < shorter.len() && spec_serial_of(#[trigger] shorter[i]) == serial;
                assert(spec_serial_of(services[i]) == serial);
            }
        }
        lemma_of_serial_absent(shorter, serial);
        shorter.lemma_filter_push(services.last(), filed);
        assert(shorter.push(services.last()) =~= services);
        assert(spec_serial_of(services[services.len() - 1]) != serial);
    }
}

/// Filing a run behind the services that were filed before it: the run
/// goes behind the services of its serial number, and the services of
/// every other serial number stay as they are.
pub proof fn lemma_file_run(
    done: Seq<ListedServiceView>,
    run: (Seq<char>, Seq<ListedServiceView>),
)
    requires
        spec_is_run(run),
    ensures
        spec_map_config(done + run.1) == spec_map_config(done).insert(
            run.0,
            spec_convert_services(spec_of_serial(done, run.0)) + spec_convert_services(run.1),
        ),
{
    let all = done + run.1;
    let key = run.0;
    assert forall|serial: Seq<char>| spec_has_serial(all, serial) <==> (spec_has_serial(
        done,
        serial,
    ) || serial == key) by {
        if spec_has_serial(all, serial) {
            let i = choose|i: int| 0 <= i < all.len() && spec_serial_of(#[trigger] all[i]) == serial;
            if i < done.len() {
                assert(spec_serial_of(done[i]) == serial);
            } else {
                assert(all[i] == run.1[i - done.len()]);
            }
        }
        if spec_has_serial(done, serial) {
            let i = choose|i: int|
                0 <= i < done.len() && spec_serial_of(#[trigger] done[i]) == serial;
            assert(spec_serial_of(all[i]) == serial);
        }
        if serial == key {
            assert(all[done.len() as int] == run.1[0]);
            assert(spec_serial_of(all[done.len() as int]) == serial);
        }
    }
    assert forall|serial: Seq<char>| spec_has_serial(all, serial) implies #[trigger] spec_map_config(
        all,
    )[serial] == spec_map_config(done).insert(
        key,
        spec_convert_services(spec_of_serial(done, key)) + spec_convert_services(run.1),
    )[serial] by {
        let filed = |service: ListedServiceView| spec_serial_of(service) == serial;
        Seq::filter_distributes_over_add(done, run.1, filed);
        lemma_of_serial_in_run(run.1, key, serial);
        if serial == key {
            assert(spec_convert_services(spec_of_serial(done, key) + run.1)
                =~= spec_convert_services(spec_of_serial(done, key)) + spec_convert_services(
                run.1,
            ));
        } else {
            assert(spec_of_serial(done, serial) + Seq::<ListedServiceView>::empty()
                =~= spec_of_serial(done, serial));
        }
    }
    assert(spec_map_config(all) =~= spec_map_config(done).insert(
        key,
        spec_convert_services(spec_of_serial(done, key)) + spec_convert_services(run.1),
    ));
}

/// The serial number under which a listed service is filed.
pub fn serial_number_of(service: &ListedService) -> (serial: String)
    ensures
        serial@ == spec_serial_of(service@),
{
    match &service.organization {
        Some(organization) => organization.serial_number.clone(),
        None => String::new(),
    }
}

/// `Itertools::group_by` of the `itertools` crate, with each group
/// collected: services that follow each other and have the same serial
/// number form one group, and the groups come in the order of the list.
#[verifier::external_body]
fn group_by_serial(services: Vec<ListedService>) -> (groups: Vec<(String, Vec<ListedService>)>)
    ensures
        spec_is_grouping(spec_listed_views(services@), spec_group_views(groups@)),
{
    services
        .into_iter()
        .group_by(|service| serial_number_of(service))
        .into_iter()
        .map(|(serial, group)| (serial, group.collect()))
        .collect()
}

/// The inway of the configuration that a listed inway stands for.
pub fn convert_inway(inway: ListedInway) -> (converted: Inway)
    ensures
        converted@ == spec_convert_inway(inway@),
{
    Inway { address: normalize_address(inway.address), state: State::from(inway.state) }
}

/// The service of the configuration that a listed service stands for.
pub fn convert_service(service: ListedService) -> (converted: Service)
    ensures
        converted@ == spec_convert_service(service@),
{
    let ghost listed = service@.inways;
    let mut inways: Vec<Inway> = Vec::new();
    for inway in it: service.inways
        invariant
            it.seq().len() == listed.len(),
            forall|i: int| 0 <= i < listed.len() ==> (#[trigger] it.seq()[i])@ == listed[i],
            inways@.len() == it.index(),
            forall|i: int|
                0 <= i < it.index() ==> (#[trigger] inways@[i])@ == spec_convert_inway(listed[i]),
    {
        assert(inway@ == listed[it.index() as int]);
        inways.push(convert_inway(inway));
    }
    let costs = match service.costs {
        Some(costs) => costs,
        None => Costs { one_time: 0, monthly: 0, request: 0 },
    };
    let organization = match service.organization {
        Some(organization) => organization,
        None => Organization { name: String::new(), serial_number: String::new() },
    };
    let converted = Service {
        name: service.name,
        documentation_url: service.documentation_url,
        api_specification_type: service.api_specification_type,
        internal: service.internal,
        public_support_contact: service.public_support_contact,
        inways,
        costs,
        organization,
    };
    assert(converted@.inways =~= spec_convert_service(service@).inways);
    converted
}

/// Builds the configuration from the answer of the directory: the answer
/// is cut into runs of one serial number, the services of each run are
/// converted, and each run is filed behind the services that were filed
/// under its serial number before.
pub fn map_config(response: ListServicesResponse) -> (config: Config)
    ensures
        config@ == spec_map_config(response@),
{
    let ghost all = response@;
    let groups = group_by_serial(response.services);
    let ghost runs = spec_group_views(groups@);
    let mut services: TextMap<Vec<Service>> = TextMap::new();
    proof {
        lemma_viewed_map(services.entries());
        assert(spec_map_of(spec_entry_views(services.entries())) =~= spec_map_config(
            spec_flatten(runs.take(0)),
        ));
    }
    for group in it: groups
        invariant
            it.seq().len() == runs.len(),
            spec_group_views(it.seq()) == runs,
            forall|g: int| 0 <= g < runs.len() ==> spec_is_run(#[trigger] runs[g]),
            spec_map_of(spec_entry_views(services.entries())) == spec_map_config(
                spec_flatten(runs.take(it.index() as int)),
            ),
    {
        let ghost at = it.index() as int;
        let ghost done = spec_flatten(runs.take(at));
        let (serial, listed) = group;
        assert(spec_group_views(it.seq())[at] == runs[at]);
        let ghost run = runs[at].1;
        let mut converted: Vec<Service> = Vec::new();
        for service in inner: listed
            invariant
                inner.seq().len() == run.len(),
                forall|i: int| 0 <= i < run.len() ==> (#[trigger] inner.seq()[i])@ == run[i],
                converted@.len() == inner.index(),
                forall|i: int|
                    0 <= i < inner.index() ==> (#[trigger] converted@[i])@ == spec_convert_service(
                        run[i],
                    ),
        {
            assert(service@ == run[inner.index() as int]);
            converted.push(convert_service(service));
        }
        assert(spec_service_views(converted@) =~= spec_convert_services(run));
        let ghost before = services.entries();
        let earlier = services.remove(serial.as_str());
        let ghost between = services.entries();
        proof {
            lemma_viewed_map(before);
            lemma_viewed_map(between);
            assert(spec_is_run(runs[at]));
            lemma_file_run(done, runs[at]);
            assert(runs.take(at + 1).drop_last() =~= runs.take(at));
            assert(runs.take(at + 1).last() == runs[at]);
        }
        let filed = match earlier {
            Some(mut filed) => {
                let ghost held = spec_service_views(filed@);
                filed.append(&mut converted);
                assert(spec_service_views(filed@) =~= held + spec_convert_services(run));
                filed
            },
            None => {
                proof {
                    assert(!spec_has_serial(done, serial@));
                    lemma_of_serial_absent(done, serial@);
                    assert(Seq::<ServiceView>::empty() + spec_convert_services(run)
                        =~= spec_convert_services(run));
                    assert(spec_convert_services(Seq::<ListedServiceView>::empty())
                        =~= Seq::<ServiceView>::empty());
                }
                converted
            },
        };
        services.insert(serial, filed);
        proof {
            lemma_viewed_map(services.entries());
            assert(spec_map_of(spec_entry_views(services.entries())) =~= spec_map_config(
                done,
            ).insert(
                runs[at].0,
                spec_convert_services(spec_of_serial(done, runs[at].0)) + spec_convert_services(
                    run,
                ),
            ));
        }
    }
    assert(runs.take(runs.len() as int) =~= runs);
    assert(spec_flatten(runs) == all);
    Config { services }
}

/// A configuration together with its content hash.
#[derive(Debug, Clone)]
pub struct Snapshot {
    pub config: Config,
    pub hash: u64,
}

/// The part of the outway's polling that decides: the hash of the
/// configuration that was published last.
#[derive(Debug, Clone)]
pub struct ConfigPoller {
    config_hash: Option<u64>,
}

impl ConfigPoller {
    /// The hash of the configuration that was published last, if any was.
    pub closed spec fn spec_config_hash(&self) -> Option<u64> {
        self.config_hash
    }

    /// A poller that has published nothing yet.
    pub fn new() -> (poller: Self)
        ensures
            poller.spec_config_hash() == None::<u64>,
    {
        ConfigPoller { config_hash: None }
    }

    /// The question to put to the directory.
    pub fn request(&self) -> ListServicesRequest {
        ListServicesRequest {  }
    }

    /// The hash of the configuration that was published last, if any was.
    pub fn config_hash(&self) -> (hash: Option<u64>)
        ensures
            hash == self.spec_config_hash(),
    {
        self.config_hash
    }

    /// One poll, for the answer that the directory gave: the answer is to
    /// be published, with its hash, unless its hash is that of the
    /// configuration published last. Before anything was published every
    /// answer is. Nothing is recorded yet: that is for `published`, once the
    /// configuration has gone out.
    pub fn poll(&self, response: ListServicesResponse) -> (snapshot: Option<Snapshot>)
        ensures
            snapshot is Some <==> spec_publishes(
                self.spec_config_hash(),
                spec_map_config(response@),
            ),
            match snapshot {
                Some(new) => {
                    &&& new.config@ == spec_map_config(response@)
                    &&& new.hash == spec_map_hash(spec_map_config(response@))
                },
                None => true,
            },
    {
        let config = map_config(response);
        let hash = config.content_hash();
        let unchanged = match self.config_hash {
            Some(last) => last == hash,
            None => false,
        };
        if unchanged {
            None
        } else {
            Some(Snapshot { config, hash })
        }
    }

    /// Records that the configuration with this hash went to the
    /// subscriber.
    pub fn published(&mut self, hash: u64)
        ensures
            final(self).spec_config_hash() == Some(hash),
    {
        self.config_hash = Some(hash);
    }
}

/// What a poller that last published the hash `last` does with a
/// configuration: `true` where it publishes.
pub open spec fn spec_publishes(last: Option<u64>, config: Map<Seq<char>, Seq<ServiceView>>) -> bool {
    last != Some(spec_map_hash(config))
}

/// A configuration is published once: after it was published, a
/// configuration with the same services is not published again, in
/// whatever order the two keep their entries.
pub proof fn lemma_same_content_not_published_again(
    published: Seq<(Seq<char>, Seq<ServiceView>)>,
    polled: Seq<(Seq<char>, Seq<ServiceView>)>,
)
    requires
        spec_distinct_keys(published),
        spec_distinct_keys(polled),
        spec_map_of(published) == spec_map_of(polled),
    ensures
        spec_content_hash(published) == spec_content_hash(polled),
        !spec_publishes(Some(spec_content_hash(published)), spec_map_of(polled)),
{
    lemma_content_hash_ignores_order(published, polled);
    lemma_map_hash(polled);
}

} // verus!
