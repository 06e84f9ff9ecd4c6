//! Decision logic of the UFFS command line and of its privileged broker.

pub mod args;
pub mod broker_service;
pub mod cli;
pub mod daemon_mgmt;
pub mod deleted;
pub mod diff;
pub mod drive;
pub mod elevation;
pub mod error;
pub mod help;
pub mod json;
pub mod model;
pub mod platform;
pub mod resident;
pub mod search;
pub mod snapshot;
pub mod snapshot_lease;
pub mod snapshot_manager;
pub mod snapshot_service;
pub mod spinner;
pub mod stats;
pub mod status;
pub mod system_status;
pub mod text;
pub mod uninstall;
pub mod update;
pub mod vss_helper;
