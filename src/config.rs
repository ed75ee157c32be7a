use vstd::prelude::*;

verus! {

/// The editor's settings.
#[derive(Debug, Default)]
pub struct Config {
    /// A directory whose files are loaded as plugins.
    pub plugin_path: Option<String>,
}

} // verus!
