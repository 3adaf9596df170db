//! What the parts of an inway tell each other.

use crate::inway::config::Config;
use vstd::prelude::*;

verus! {

/// Something that the rest of the inway has to hear of.
#[derive(Debug, Clone)]
pub enum Event {
    /// The management API has accepted the inway.
    InwayRegistered,
    /// A new configuration was published.
    ConfigUpdated(Config),
}

} // verus!
