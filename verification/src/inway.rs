//! The inbound gateway: configuration from the management API, what is
//! announced to the directory, and the routes to the internal backends.

pub mod broadcast;
pub mod config;
pub mod config_poller;
pub mod event;
pub mod reverse_proxy;
pub mod server;

pub use broadcast::{
    check_ack, lemma_held_was_seen, lemma_no_announcement_before_config, spec_announcement,
    spec_announces, spec_held_after, spec_held_after_all, spec_register_service,
    spec_register_services, Action, AnnounceError, Announcement, Broadcast, Metadata,
    RegisterInwayRequest, RegisterInwayRequestView, RegisterService, RegisterServiceView, Signal,
    SignalView, BROADCAST_INTERVAL_SECS,
};
pub use config::{Config, Service};
pub use config_poller::ConfigPoller;
pub use server::Server;
