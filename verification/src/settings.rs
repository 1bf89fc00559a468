//! The persisted application settings.
//!
//! The core holds the settings as plain values; reading and writing the
//! settings file is the shell's concern.

use vstd::prelude::*;

use crate::setup::SetupParameters;

verus! {

/// The application settings: the installation root directory, if one has
/// been chosen.
#[derive(Debug)]
pub struct Settings {
    pub xplane_dir: Option<String>,
}

impl Clone for Settings {
    fn clone(&self) -> (r: Self)
        ensures
            r == *self,
    {
        Settings {
            xplane_dir: match &self.xplane_dir {
                Some(dir) => Some(dir.clone()),
                None => None,
            },
        }
    }
}

impl Default for Settings {
    fn default() -> (r: Self)
        ensures
            r.xplane_dir is None,
    {
        Settings { xplane_dir: None }
    }
}

impl Settings {
    /// Records the installation root chosen by the setup flow.
    pub fn setup(&mut self, parameters: SetupParameters)
        ensures
            final(self).xplane_dir == Some(parameters.xplane_dir),
    {
        self.xplane_dir = Some(parameters.xplane_dir);
    }
}

} // verus!
