//! The outbound gateway: configuration from the directory and the routes
//! derived from it.

pub mod broadcast;
pub mod config;
pub mod config_poller;
pub mod server;

pub use broadcast::{
    Broadcast, DirectoryRegistration, ManagementRegistration, Registration,
    REGISTRATION_INTERVAL_SECS,
};
pub use config::Config;
pub use config_poller::ConfigPoller;
pub use server::Server;
