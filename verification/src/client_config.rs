//! What a client is told of its own setup when it starts.

use vstd::prelude::*;

verus! {

/// The address that a client binds to.
#[derive(Clone, Copy, Debug, PartialEq, Eq, Hash)]
pub enum BindIp {
    V4([u8; 4]),
    V6([u8; 16]),
}

/// The setup of one client.
#[derive(Debug, Hash)]
pub struct ClientConfig {
    pub network: Network,
    pub reserved_resources: ReservedResources,
}

/// How a client is reached, and which ports it may hand out.
#[derive(Debug, Hash)]
pub struct Network {
    pub bind_ip: BindIp,
    pub lan_hostname: String,
    pub wan_hostname: String,
    pub lan_port_range_min: u16,
    pub lan_port_range_max: u16,
    pub wan_port_range_min: u16,
    pub wan_port_range_max: u16,
}

/// What a client keeps back for itself and does not hand out to workloads.
#[derive(Clone, Copy, Debug, PartialEq, Eq, Hash)]
pub struct ReservedResources {
    /// Millicores.
    pub cpu: u64,
    /// MiB.
    pub memory: u64,
}

} // verus!
