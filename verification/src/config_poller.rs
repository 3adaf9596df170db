//! Registering an inway with the management API, once, when it starts.

use vstd::prelude::*;

verus! {

/// What the registration reports to its owner.
#[derive(Debug, Clone, Copy, PartialEq, Eq, Structural)]
pub enum Event {
    /// The management API has accepted the inway.
    InwayRegistered,
}

/// The message that registers an inway with the management API.
#[derive(Debug, Clone)]
pub struct InwayRegistration {
    pub name: String,
    pub version: String,
    pub hostname: String,
    pub self_address: String,
    pub services: Vec<String>,
    pub ip_address: String,
}

/// A registration message as plain values.
pub struct InwayRegistrationView {
    pub name: Seq<char>,
    pub version: Seq<char>,
    pub hostname: Seq<char>,
    pub self_address: Seq<char>,
    pub services: Seq<Seq<char>>,
    pub ip_address: Seq<char>,
}

impl View for InwayRegistration {
    type V = InwayRegistrationView;

    open spec fn view(&self) -> InwayRegistrationView {
        InwayRegistrationView {
            name: self.name@,
            version: self.version@,
            hostname: self.hostname@,
            self_address: self.self_address@,
            services: Seq::new(self.services@.len(), |i: int| self.services@[i]@),
            ip_address: self.ip_address@,
        }
    }
}

/// The addresses that the registration needs: that of the inway itself and
/// that of the management API.
#[derive(Debug, Clone)]
pub struct ConfigPoller {
    inway_addr: String,
    management_api_addr: String,
}

impl ConfigPoller {
    /// The address under which the inway is reached.
    pub closed spec fn spec_inway_addr(&self) -> Seq<char> {
        self.inway_addr@
    }

    /// The address of the management API.
    pub closed spec fn spec_management_api_addr(&self) -> Seq<char> {
        self.management_api_addr@
    }

    /// Keeps the two addresses.
    pub fn new(inway_addr: String, management_api_addr: String) -> (poller: Self)
        ensures
            poller.spec_inway_addr() == inway_addr@,
            poller.spec_management_api_addr() == management_api_addr@,
    {
        ConfigPoller { inway_addr, management_api_addr }
    }

    /// The address of the management API.
    pub fn management_api_addr(&self) -> (addr: &str)
        ensures
            addr@ == self.spec_management_api_addr(),
    {
        self.management_api_addr.as_str()
    }

    /// The message that registers the inway: it goes under the name
    /// `NLX-Gateway` and the version `0.0.1`, with the host name given and
    /// the inway's own address, without services and without an IP address.
    pub fn inway(&self, hostname: String) -> (message: InwayRegistration)
        ensures
            message@ == (InwayRegistrationView {
                name: "NLX-Gateway"@,
                version: "0.0.1"@,
                hostname: hostname@,
                self_address: self.spec_inway_addr(),
                services: Seq::empty(),
                ip_address: Seq::empty(),
            }),
    {
        let message = InwayRegistration {
            name: String::from_str("NLX-Gateway"),
            version: String::from_str("0.0.1"),
            hostname,
            self_address: self.inway_addr.clone(),
            services: Vec::new(),
            ip_address: String::new(),
        };
        assert(message@.services =~= Seq::empty());
        message
    }

    /// What is reported once the management API has accepted the message.
    pub fn registered(&self) -> (event: Event)
        ensures
            event == Event::InwayRegistered,
    {
        Event::InwayRegistered
    }
}

} // verus!
