//! The values exchanged with the first-run setup flow.

use vstd::prelude::*;

verus! {

/// The values gathered by the setup flow: the chosen installation root
/// directory.
pub struct SetupParameters {
    pub xplane_dir: String,
}

/// What one round of the setup flow produced.
pub enum SetupPageResult {
    /// The user has not confirmed a directory yet.
    Waiting,
    /// The user confirmed a directory; setup is done.
    Continue(SetupParameters),
}

} // verus!
