//! Whether training is streamed to a rerun.io viewer.
//!
//! Opening the connection is the caller's: it hands over an action that
//! tries to connect and says whether that worked.

use vstd::prelude::*;

verus! {

/// The link to a rerun.io viewer, if one was opened.
#[derive(Debug, Clone, Copy, PartialEq, Eq, Structural)]
pub struct VisualizeTools {
    connected: bool,
}

impl VisualizeTools {
    /// Whether a recording stream is open; only then is anything logged.
    pub closed spec fn is_connected(&self) -> bool {
        self.connected
    }

    /// Opens a recording stream when `enabled`, by running `connect`, which
    /// tries to reach the viewer and says whether that worked; when not
    /// enabled nothing is tried and nothing will be logged.
    pub fn new<F: FnOnce() -> bool>(enabled: bool, connect: F) -> (t: Self)
        requires
            enabled ==> connect.requires(()),
        ensures
            !enabled ==> !t.is_connected(),
            enabled ==> connect.ensures((), t.is_connected()),
    {
        if enabled {
            let ok = connect();
            VisualizeTools { connected: ok }
        } else {
            VisualizeTools { connected: false }
        }
    }

    /// Whether logging calls record anything.
    pub fn logs(&self) -> (r: bool)
        ensures
            r == self.is_connected(),
    {
        self.connected
    }

    /// The growth logged after a refinement: splats added minus splats pruned.
    pub fn effective_growth(num_added: u32, num_pruned: u32) -> (g: i64)
        ensures
            g == num_added - num_pruned,
    {
        num_added as i64 - num_pruned as i64
    }
}

} // verus!
