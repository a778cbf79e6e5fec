//! Identity of an archive engine.

use vstd::prelude::*;

use crate::format::LicenseNotice;

verus! {

/// Identity and diagnostics for an archive engine instance.
#[derive(Debug, PartialEq, Eq)]
pub struct EngineInfo {
    /// Engine name.
    pub name: String,
    /// Provider version when available.
    pub version: Option<String>,
    /// Loaded library path when a native provider is used.
    pub library_path: Option<String>,
    /// License notice for the engine/provider.
    pub license: LicenseNotice,
    /// Diagnostics retained during loading.
    pub diagnostics: Vec<String>,
}

impl Clone for EngineInfo {
    fn clone(&self) -> (r: Self)
        ensures
            r.name == self.name,
            r.version == self.version,
            r.library_path == self.library_path,
            crate::format::same_license(r.license, self.license),
            r.diagnostics@ == self.diagnostics@,
    {
        EngineInfo {
            name: self.name.clone(),
            version: crate::entry::copy_opt_string(&self.version),
            library_path: crate::entry::copy_opt_string(&self.library_path),
            license: self.license.clone(),
            diagnostics: crate::format::copy_strings(&self.diagnostics),
        }
    }
}

} // verus!
