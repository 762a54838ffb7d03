//! Verified core of a server maintenance tool: configuration merging,
//! host-connection bookkeeping, caching, and the small parsers and state
//! machines that sit between the user interface and remote hosts.

pub mod error;
pub mod text;
pub mod digest;
pub mod enums;
pub mod core_connection;
pub mod keyed;
pub mod configuration;
pub mod display_options;
pub mod config_editor;
pub mod command_handler;
pub mod frontend;
pub mod command_launch;
pub mod backend;
pub mod cooldown;
pub mod portal;
pub mod connection_plan;
pub mod cache;
pub mod ssh_transport;
pub mod pending_rpc;
pub mod file_handler;
pub mod monitor_layout;
pub mod sorting;
pub mod group_settings;
pub mod command_layout;
pub mod request_flow;
pub mod response_flow;
pub mod core_session;
pub mod host_table;
pub mod host;
pub mod host_state;
pub mod charts;
pub mod theme;

use vstd::prelude::*;

verus! {

/// Why the main loop of the application ended.
#[derive(PartialEq, Eq, Structural, Clone, Copy, Debug)]
pub enum ExitReason {
    Quit,
    Restart,
}

} // verus!
