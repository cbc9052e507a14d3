//! Events of a running `emaint sync`.
use vstd::prelude::*;

verus! {

/// Sync event for transmission to the UI.
#[derive(Debug)]
pub enum SyncEvent {
    /// Sync started for a specific overlay.
    Started(String),
    /// Output line from emaint sync.
    Output(String),
    /// Sync completed.
    Finished(Result<(), String>),
}

} // verus!
