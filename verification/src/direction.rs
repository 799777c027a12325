//! Inbound vs outbound direction of a packet relative to the protected service.

use vstd::prelude::*;

verus! {

/// Direction of a packet flowing through the firewall, relative to the
/// protected service.
#[derive(Debug, Clone, Copy, PartialEq, Eq, Hash, Structural)]
pub enum Direction {
    /// From the network into the service.
    Inbound,
    /// From the service back to the network.
    Outbound,
}

impl Direction {
    /// The lower-case wire name of the direction (`"inbound"` / `"outbound"`).
    pub open spec fn spec_name(self) -> Seq<char> {
        match self {
            Direction::Inbound => seq!['i', 'n', 'b', 'o', 'u', 'n', 'd'],
            Direction::Outbound => seq!['o', 'u', 't', 'b', 'o', 'u', 'n', 'd'],
        }
    }

    /// The lower-case wire name of the direction, as the sidecar protocol
    /// and the block log spell it.
    pub fn name(self) -> (r: &'static str)
        ensures
            r@ == self.spec_name(),
    {
        match self {
            Direction::Inbound => {
                let s = "inbound";
                proof {
                    reveal_strlit("inbound");
                }
                s
            },
            Direction::Outbound => {
                let s = "outbound";
                proof {
                    reveal_strlit("outbound");
                }
                s
            },
        }
    }
}

} // verus!
