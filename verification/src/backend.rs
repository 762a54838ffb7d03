//! Where the configuration is kept: on this machine, or by a remote core
//! service. Implementations do I/O and live with the application.

use vstd::prelude::*;
use crate::configuration::{Configuration, Groups, Hosts};
use crate::error::LkError;

verus! {

/// Reads and replaces the whole configuration.
pub trait ConfigBackend {
    /// The main configuration, the hosts and the groups.
    fn get_config(&self) -> Result<(Configuration, Hosts, Groups), LkError>;

    /// Replaces the stored configuration.
    fn update_config(&self, main_config: Configuration, hosts: Hosts, groups: Groups) -> Result<(), LkError>;
}

} // verus!
