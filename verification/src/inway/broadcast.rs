//! Keeping an inway registered: once with the management API, and at a
//! fixed interval with the directory, to which it announces its services.
//!
//! Nothing is announced before a configuration has come in: an
//! announcement without services would wipe what the directory knows of
//! this inway.

use crate::config_poller::{InwayRegistration, InwayRegistrationView};
use crate::inway::config::{Config, ServiceView};
use vstd::prelude::*;

verus! {

/// The seconds between two announcements to the directory.
pub const BROADCAST_INTERVAL_SECS: u64 = 10;

/// One service in an announcement.
#[derive(Debug, Clone)]
pub struct RegisterService {
    pub name: String,
    pub documentation_url: String,
    pub api_specification_type: String,
    pub api_specification_document_url: String,
    pub internal: bool,
    pub public_support_contact: String,
    pub tech_support_contact: String,
    pub one_time_costs: i32,
    pub monthly_costs: i32,
    pub request_costs: i32,
}

/// An announced service as plain values.
pub struct RegisterServiceView {
    pub name: Seq<char>,
    pub documentation_url: Seq<char>,
    pub api_specification_type: Seq<char>,
    pub api_specification_document_url: Seq<char>,
    pub internal: bool,
    pub public_support_contact: Seq<char>,
    pub tech_support_contact: Seq<char>,
    pub one_time_costs: i32,
    pub monthly_costs: i32,
    pub request_costs: i32,
}

impl View for RegisterService {
    type V = RegisterServiceView;

    open spec fn view(&self) -> RegisterServiceView {
        RegisterServiceView {
            name: self.name@,
            documentation_url: self.documentation_url@,
            api_specification_type: self.api_specification_type@,
            api_specification_document_url: self.api_specification_document_url@,
            internal: self.internal,
            public_support_contact: self.public_support_contact@,
            tech_support_contact: self.tech_support_contact@,
            one_time_costs: self.one_time_costs,
            monthly_costs: self.monthly_costs,
            request_costs: self.request_costs,
        }
    }
}

/// The message that announces an inway and its services to the directory.
#[derive(Debug, Clone)]
pub struct RegisterInwayRequest {
    pub inway_address: String,
    pub services: Vec<RegisterService>,
    pub inway_name: String,
    pub is_organization_inway: bool,
    pub management_api_proxy_address: String,
}

/// An announcement as plain values.
pub struct RegisterInwayRequestView {
    pub inway_address: Seq<char>,
    pub services: Seq<RegisterServiceView>,
    pub inway_name: Seq<char>,
    pub is_organization_inway: bool,
    pub management_api_proxy_address: Seq<char>,
}

impl View for RegisterInwayRequest {
    type V = RegisterInwayRequestView;

    open spec fn view(&self) -> RegisterInwayRequestView {
        RegisterInwayRequestView {
            inway_address: self.inway_address@,
            services: Seq::new(self.services@.len(), |i: int| self.services@[i]@),
            inway_name: self.inway_name@,
            is_organization_inway: self.is_organization_inway,
            management_api_proxy_address: self.management_api_proxy_address@,
        }
    }
}

/// One entry of the metadata that goes with an announcement.
#[derive(Debug, Clone)]
pub struct Metadata {
    pub key: String,
    pub value: String,
}

/// An announcement and the metadata that goes with it.
#[derive(Debug, Clone)]
pub struct Announcement {
    pub request: RegisterInwayRequest,
    pub metadata: Vec<Metadata>,
}

/// Why an announcement counts as failed.
#[derive(Debug, Clone)]
pub enum AnnounceError {
    /// The directory answered with an error text.
    Refused(String),
}

/// The announced form of a service: its texts and costs as they are, no
/// type and no document of an API specification.
pub open spec fn spec_register_service(service: ServiceView) -> RegisterServiceView {
    RegisterServiceView {
        name: service.name,
        documentation_url: service.documentation_url,
        api_specification_type: Seq::empty(),
        api_specification_document_url: Seq::empty(),
        internal: service.internal,
        public_support_contact: service.public_support_contact,
        tech_support_contact: service.tech_support_contact,
        one_time_costs: service.one_time_costs,
        monthly_costs: service.monthly_costs,
        request_costs: service.request_costs,
    }
}

/// The announced form of the entries of a configuration, one for one.
pub open spec fn spec_register_services(entries: Seq<(Seq<char>, ServiceView)>) -> Seq<
    RegisterServiceView,
> {
    Seq::new(entries.len(), |i: int| spec_register_service(entries[i].1))
}

/// The announcement of an inway with the services of a configuration. The
/// inway is always announced as the inway of its organization, without an
/// address of a proxy of the management API.
pub open spec fn spec_announcement(
    inway_name: Seq<char>,
    inway_address: Seq<char>,
    entries: Seq<(Seq<char>, ServiceView)>,
) -> RegisterInwayRequestView {
    RegisterInwayRequestView {
        inway_address,
        services: spec_register_services(entries),
        inway_name,
        is_organization_inway: true,
        management_api_proxy_address: Seq::empty(),
    }
}

/// What the broadcaster hears while it runs.
#[derive(Debug, Clone)]
pub enum Signal {
    /// The interval between two announcements has passed.
    Tick,
    /// A configuration was published.
    Config(Config),
    /// Publications were missed.
    Lagged,
    /// Nothing will be published any more.
    Closed,
}

/// A signal as plain values: of a configuration, its entries.
pub enum SignalView {
    Tick,
    Config(Seq<(Seq<char>, ServiceView)>),
    Lagged,
    Closed,
}

impl View for Signal {
    type V = SignalView;

    open spec fn view(&self) -> SignalView {
        match self {
            Signal::Tick => SignalView::Tick,
            Signal::Config(config) => SignalView::Config(config.spec_entries()),
            Signal::Lagged => SignalView::Lagged,
            Signal::Closed => SignalView::Closed,
        }
    }
}

/// What the broadcaster does on a signal.
#[derive(Debug, Clone)]
pub enum Action {
    /// It sends this announcement to the directory.
    Announce(Announcement),
    /// It does nothing and waits for the next signal.
    Idle,
    /// It ends.
    Stop,
}

/// The configuration that the broadcaster holds after a signal: a
/// published one replaces what it held, missed publications make it
/// forget what it held, a tick and the end of the channel change nothing.
pub open spec fn spec_held_after(
    held: Option<Seq<(Seq<char>, ServiceView)>>,
    signal: SignalView,
) -> Option<Seq<(Seq<char>, ServiceView)>> {
    match signal {
        SignalView::Tick => held,
        SignalView::Config(entries) => Some(entries),
        SignalView::Lagged => None,
        SignalView::Closed => held,
    }
}

/// The configuration that a broadcaster holds after a sequence of signals,
/// when it held none at the start.
pub open spec fn spec_held_after_all(signals: Seq<SignalView>) -> Option<
    Seq<(Seq<char>, ServiceView)>,
>
    decreases signals.len(),
{
    if signals.len() == 0 {
        None
    } else {
        spec_held_after(spec_held_after_all(signals.drop_last()), signals.last())
    }
}

/// Whether the broadcaster announces on a signal: on a tick, and only
/// while it holds a configuration.
pub open spec fn spec_announces(
    held: Option<Seq<(Seq<char>, ServiceView)>>,
    signal: SignalView,
) -> bool {
    signal is Tick && held is Some
}

/// The part of the inway's broadcasting that decides: who the inway is,
/// and the configuration that was published last.
#[derive(Debug, Clone)]
pub struct Broadcast {
    inway_name: String,
    inway_address: String,
    version: String,
    config: Option<Config>,
}

impl Broadcast {
    /// The name of the inway.
    pub closed spec fn spec_inway_name(&self) -> Seq<char> {
        self.inway_name@
    }

    /// The address under which the inway is reached.
    pub closed spec fn spec_inway_address(&self) -> Seq<char> {
        self.inway_address@
    }

    /// The version of the gateway.
    pub closed spec fn spec_version(&self) -> Seq<char> {
        self.version@
    }

    /// The entries of the configuration that is held, if one is.
    pub closed spec fn spec_held(&self) -> Option<Seq<(Seq<char>, ServiceView)>> {
        match self.config {
            Some(config) => Some(config.spec_entries()),
            None => None,
        }
    }

    /// A broadcaster that holds no configuration yet.
    pub fn new(inway_name: String, inway_address: String, version: String) -> (broadcast: Self)
        ensures
            broadcast.spec_inway_name() == inway_name@,
            broadcast.spec_inway_address() == inway_address@,
            broadcast.spec_version() == version@,
            broadcast.spec_held() is None,
    {
        Self { inway_name, inway_address, version, config: None }
    }

    /// The message that registers the inway with the management API: its
    /// name, the version of the gateway, the host name given and its
    /// address, without services and without an IP address.
    pub fn register_inway(&self, hostname: String) -> (message: InwayRegistration)
        ensures
            message@ == (InwayRegistrationView {
                name: self.spec_inway_name(),
                version: self.spec_version(),
                hostname: hostname@,
                self_address: self.spec_inway_address(),
                services: Seq::empty(),
                ip_address: Seq::empty(),
            }),
    {
        let message = InwayRegistration {
            name: self.inway_name.clone(),
            version: self.version.clone(),
            hostname,
            self_address: self.inway_address.clone(),
            services: Vec::new(),
            ip_address: String::new(),
        };
        assert(message@.services =~= Seq::empty());
        message
    }

    /// The announcement of the inway with the services of a configuration,
    /// in the order in which the configuration keeps them, and with the
    /// metadata `nlx-component`, which is `inway`, and `nlx-version`.
    pub fn announce(&self, config: &Config) -> (announcement: Announcement)
        ensures
            announcement.request@ == spec_announcement(
                self.spec_inway_name(),
                self.spec_inway_address(),
                config.spec_entries(),
            ),
            announcement.metadata@.len() == 2,
            announcement.metadata@[0].key@ == "nlx-component"@,
            announcement.metadata@[0].value@ == "inway"@,
            announcement.metadata@[1].key@ == "nlx-version"@,
            announcement.metadata@[1].value@ == self.spec_version(),
    {
        let count = config.services.len();
        let ghost entries = config.spec_entries();
        let mut services: Vec<RegisterService> = Vec::new();
        let mut at: usize = 0;
        while at < count
            invariant
                at <= count,
                count == config.services.entries().len(),
                entries == config.spec_entries(),
                services@.len() == at,
                forall|i: int|
                    0 <= i < at ==> (#[trigger] services@[i])@ == spec_register_service(
                        entries[i].1,
                    ),
            decreases count - at,
        {
            let service = config.services.value_at(at);
            services.push(
                RegisterService {
                    name: service.name.clone(),
                    documentation_url: service.documentation_url.clone(),
                    api_specification_type: String::new(),
                    api_specification_document_url: String::new(),
                    internal: service.internal,
                    public_support_contact: service.public_support_contact.clone(),
                    tech_support_contact: service.tech_support_contact.clone(),
                    one_time_costs: service.one_time_costs,
                    monthly_costs: service.monthly_costs,
                    request_costs: service.request_costs,
                },
            );
            at += 1;
        }
        let request = RegisterInwayRequest {
            inway_address: self.inway_address.clone(),
            services,
            inway_name: self.inway_name.clone(),
            is_organization_inway: true,
            management_api_proxy_address: String::new(),
        };
        assert(request@.services =~= spec_register_services(entries));
        let mut metadata: Vec<Metadata> = Vec::new();
        metadata.push(
            Metadata { key: String::from_str("nlx-component"), value: String::from_str("inway") },
        );
        metadata.push(
            Metadata { key: String::from_str("nlx-version"), value: self.version.clone() },
        );
        Announcement { request, metadata }
    }

    /// Takes one signal in. On a tick the inway is announced with the
    /// configuration that is held, and nothing happens while none is held.
    /// A published configuration is held from then on. After missed
    /// publications nothing is held until the next one comes in. When the
    /// channel has ended the broadcaster stops.
    pub fn step(&mut self, signal: Signal) -> (action: Action)
        ensures
            final(self).spec_held() == spec_held_after(old(self).spec_held(), signal@),
            final(self).spec_inway_name() == old(self).spec_inway_name(),
            final(self).spec_inway_address() == old(self).spec_inway_address(),
            final(self).spec_version() == old(self).spec_version(),
            match action {
                Action::Announce(announcement) => {
                    &&& spec_announces(old(self).spec_held(), signal@)
                    &&& announcement.request@ == spec_announcement(
                        old(self).spec_inway_name(),
                        old(self).spec_inway_address(),
                        old(self).spec_held()->0,
                    )
                    &&& announcement.metadata@.len() == 2
                    &&& announcement.metadata@[0].key@ == "nlx-component"@
                    &&& announcement.metadata@[0].value@ == "inway"@
                    &&& announcement.metadata@[1].key@ == "nlx-version"@
                    &&& announcement.metadata@[1].value@ == old(self).spec_version()
                },
                Action::Idle => !spec_announces(old(self).spec_held(), signal@) && !(signal@
                    is Closed),
                Action::Stop => signal@ is Closed,
            },
    {
        match signal {
            Signal::Tick => {
                match &self.config {
                    Some(config) => Action::Announce(self.announce(config)),
                    None => Action::Idle,
                }
            },
            Signal::Config(config) => {
                self.config = Some(config);
                Action::Idle
            },
            Signal::Lagged => {
                self.config = None;
                Action::Idle
            },
            Signal::Closed => Action::Stop,
        }
    }

    /// Forgets the configuration that is held: the broadcaster begins
    /// again after a failure as it began at first.
    pub fn restart(&mut self)
        ensures
            final(self).spec_held() is None,
            final(self).spec_inway_name() == old(self).spec_inway_name(),
            final(self).spec_inway_address() == old(self).spec_inway_address(),
            final(self).spec_version() == old(self).spec_version(),
    {
        self.config = None;
    }
}

/// Reads the answer of the directory to an announcement: an answer with an
/// error text is a failure, one without is a success.
pub fn check_ack(error: &str) -> (outcome: Result<(), AnnounceError>)
    ensures
        match outcome {
            Ok(_) => error@.len() == 0,
            Err(AnnounceError::Refused(text)) => error@.len() > 0 && text@ == error@,
        },
{
    if error.is_empty() {
        Ok(())
    } else {
        Err(AnnounceError::Refused(String::from_str(error)))
    }
}

/// The broadcaster never announces before it has seen a configuration: if
/// it announces on the signal at position `at`, a configuration came in
/// with one of the signals before, and no publication was missed since.
pub proof fn lemma_no_announcement_before_config(signals: Seq<SignalView>, at: int)
    requires
        0 <= at < signals.len(),
        spec_announces(spec_held_after_all(signals.take(at)), signals[at]),
    ensures
        exists|seen: int|
            0 <= seen < at && #[trigger] signals[seen] is Config && spec_held_after_all(
                signals.take(at),
            ) == Some(signals[seen]->Config_0),
{
    lemma_held_was_seen(signals.take(at));
    let seen = choose|seen: int|
        0 <= seen < at && #[trigger] signals.take(at)[seen] is Config && spec_held_after_all(
            signals.take(at),
        ) == Some(signals.take(at)[seen]->Config_0);
    assert(signals[seen] == signals.take(at)[seen]);
}

/// A configuration that is held came in with one of the signals.
pub proof fn lemma_held_was_seen(signals: Seq<SignalView>)
    requires
        spec_held_after_all(signals) is Some,
    ensures
        exists|seen: int|
            0 <= seen < signals.len() && #[trigger] signals[seen] is Config && spec_held_after_all(
                signals,
            ) == Some(signals[seen]->Config_0),
    decreases signals.len(),
{
    let last = signals.len() - 1;
    match signals[last] {
        SignalView::Config(entries) => {
            assert(signals[last] is Config);
        },
        SignalView::Lagged => {},
        _ => {
            let shorter = signals.drop_last();
            lemma_held_was_seen(shorter);
            let seen = choose|seen: int|
                0 <= seen < shorter.len() && #[trigger] shorter[seen] is Config
                    && spec_held_after_all(shorter) == Some(shorter[seen]->Config_0);
            assert(signals[seen] == shorter[seen]);
        },
    }
}

} // verus!
