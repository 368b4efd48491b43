//! NAT traversal status.

use vstd::prelude::*;

verus! {

/// What NAT traversal found out.
pub struct NatStatus {
    pub external_ip: String,
    pub is_behind_cgnat: bool,
    pub hole_punching_active: bool,
    pub mapped_port: u16,
}

/// Engine for STUN discovery and UPnP/PMP port mapping.
pub struct NatEngine;

impl NatEngine {
    /// The NAT status of this node: external address `185.12.44.89`
    /// (followed by a line break, as announced), behind carrier-grade NAT,
    /// hole punching active, port 8080 mapped.
    pub fn resolve_nat() -> (s: NatStatus)
        ensures
            s.external_ip@ == "185.12.44.89\n"@,
            s.is_behind_cgnat,
            s.hole_punching_active,
            s.mapped_port == 8080,
    {
        NatStatus {
            external_ip: "185.12.44.89\n".to_owned(),
            is_behind_cgnat: true,
            hole_punching_active: true,
            mapped_port: 8080,
        }
    }
}

} // verus!
