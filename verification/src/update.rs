//! The update envelope: a closed sum over the kinds of item the stream
//! delivers.

use vstd::prelude::*;

verus! {

/// One decoded item of the inbound stream.
///
/// Every kind but the keepalive pair and `Other` carries the slot it belongs
/// to. A transaction also carries the bytes of its first signature, when it
/// has one.
pub enum Update {
    Transaction { slot: u64, signature: Option<Vec<u8>> },
    Slot { slot: u64 },
    Block { slot: u64 },
    BlockMeta { slot: u64 },
    Account { slot: u64 },
    Entry { slot: u64 },
    Ping,
    Pong,
    Other,
}

impl Update {
    /// The slot the update carries, if its kind carries one.
    pub open spec fn spec_slot(&self) -> Option<u64> {
        match *self {
            Update::Transaction { slot, .. } => Some(slot),
            Update::Slot { slot } => Some(slot),
            Update::Block { slot } => Some(slot),
            Update::BlockMeta { slot } => Some(slot),
            Update::Account { slot } => Some(slot),
            Update::Entry { slot } => Some(slot),
            Update::Ping => None,
            Update::Pong => None,
            Update::Other => None,
        }
    }

    /// Whether the update is a keepalive artifact (a ping or a pong).
    pub open spec fn spec_is_heartbeat(&self) -> bool {
        *self is Ping || *self is Pong
    }

    #[verifier::when_used_as_spec(spec_slot)]
    pub fn slot(&self) -> (slot: Option<u64>)
        ensures
            slot == self.spec_slot(),
    {
        match self {
            Update::Transaction { slot, .. } => Some(*slot),
            Update::Slot { slot } => Some(*slot),
            Update::Block { slot } => Some(*slot),
            Update::BlockMeta { slot } => Some(*slot),
            Update::Account { slot } => Some(*slot),
            Update::Entry { slot } => Some(*slot),
            Update::Ping => None,
            Update::Pong => None,
            Update::Other => None,
        }
    }

    #[verifier::when_used_as_spec(spec_is_heartbeat)]
    pub fn is_heartbeat(&self) -> (heartbeat: bool)
        ensures
            heartbeat == self.spec_is_heartbeat(),
    {
        match self {
            Update::Ping => true,
            Update::Pong => true,
            _ => false,
        }
    }
}

} // verus!
