//! Network protocol stubs: the value types exchanged between client and
//! server. The surrounding transport is not part of this crate.

use vstd::prelude::*;

verus! {

/// One player input sent to the server.
#[derive(Debug, Clone)]
pub struct Command {
    pub player_id: u64,
    pub input: String,
}

/// One world-state snapshot sent to clients.
#[derive(Debug, Clone)]
pub struct Snapshot {
    pub tick: u32,
    pub state: String,
}

} // verus!
