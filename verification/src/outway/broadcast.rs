//! Keeping an outway registered with the management API and with the
//! directory, at a fixed interval.

use vstd::prelude::*;

verus! {

/// The seconds between two registrations.
pub const REGISTRATION_INTERVAL_SECS: u64 = 10;

/// The message that registers an outway with the management API.
#[derive(Debug, Clone)]
pub struct ManagementRegistration {
    pub name: String,
    pub public_key_pem: String,
    pub version: String,
    pub self_address_api: String,
}

/// The message that registers an outway with the directory.
#[derive(Debug, Clone)]
pub struct DirectoryRegistration {
    pub name: String,
}

/// The two messages of one registration; they go out side by side.
#[derive(Debug, Clone)]
pub struct Registration {
    pub management: ManagementRegistration,
    pub directory: DirectoryRegistration,
}

/// The part of the outway's broadcasting that decides: who the outway is.
#[derive(Debug, Clone)]
pub struct Broadcast {
    outway_name: String,
    public_key_pem: String,
    version: String,
}

impl Broadcast {
    /// The name of the outway.
    pub closed spec fn spec_outway_name(&self) -> Seq<char> {
        self.outway_name@
    }

    /// The public key of the organization's certificate, as PEM.
    pub closed spec fn spec_public_key_pem(&self) -> Seq<char> {
        self.public_key_pem@
    }

    /// The version of the gateway.
    pub closed spec fn spec_version(&self) -> Seq<char> {
        self.version@
    }

    /// Keeps who the outway is.
    pub fn new(public_key_pem: String, outway_name: String, version: String) -> (broadcast: Self)
        ensures
            broadcast.spec_outway_name() == outway_name@,
            broadcast.spec_public_key_pem() == public_key_pem@,
            broadcast.spec_version() == version@,
    {
        Self { outway_name, public_key_pem, version }
    }

    /// The two messages of one registration: the management API hears the
    /// name, the public key, the version and `http://localhost` as the
    /// address of the outway's API; the directory hears the name.
    pub fn announce(&self) -> (registration: Registration)
        ensures
            registration.management.name@ == self.spec_outway_name(),
            registration.management.public_key_pem@ == self.spec_public_key_pem(),
            registration.management.version@ == self.spec_version(),
            registration.management.self_address_api@ == "http://localhost"@,
            registration.directory.name@ == self.spec_outway_name(),
    {
        Registration {
            management: ManagementRegistration {
                name: self.outway_name.clone(),
                public_key_pem: self.public_key_pem.clone(),
                version: self.version.clone(),
                self_address_api: String::from_str("http://localhost"),
            },
            directory: DirectoryRegistration { name: self.outway_name.clone() },
        }
    }
}

} // verus!
