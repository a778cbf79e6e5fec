//! Split-archive volume providers.

use vstd::prelude::*;

use crate::error::{ArchiveError, ErrorView};
use crate::text::owned;

verus! {

/// Provides sibling streams requested by a split archive handler.
pub trait VolumeProvider: Send + Sync {
    /// The stream type of an opened volume.
    type Volume;

    /// Whether this provider finds no volume and tells no archive name; a
    /// provider that does not say so promises nothing.
    open spec fn resolves_nothing(&self) -> bool {
        false
    }

    /// Opens one provider-requested volume by its archive-relative name.
    fn open_volume(&self, name: &str) -> (r: Result<Self::Volume, ArchiveError>)
        ensures
            self.resolves_nothing() ==> (r matches Err(e) && e@ == ErrorView::VolumeNotFound(name@)),
    ;

    /// Returns the primary archive name used to derive volume names; a
    /// provider that does not tell answers none.
    fn archive_name(&self) -> (r: Option<String>)
        ensures
            self.resolves_nothing() ==> r is None,
        default_ensures
            r is None,
    {
        None
    }
}

/// Default provider used when an operation has no volume resolver.
#[derive(Clone, Copy, Debug, Default)]
pub struct NoVolumeProvider;

impl VolumeProvider for NoVolumeProvider {
    type Volume = ();

    open spec fn resolves_nothing(&self) -> bool {
        true
    }

    fn open_volume(&self, name: &str) -> (r: Result<(), ArchiveError>)
        ensures
            r matches Err(e) && e@ == ErrorView::VolumeNotFound(name@),
    {
        Err(ArchiveError::VolumeNotFound(owned(name)))
    }
}

} // verus!
