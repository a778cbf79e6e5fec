//! Extraction safety policies.

use vstd::prelude::*;

verus! {

/// Policy for symbolic and hard links encountered during extraction.
#[derive(Clone, Copy, Debug, PartialEq, Eq, Structural)]
pub enum LinkPolicy {
    /// Reject links by default.
    Reject,
    /// Preserve links after validating their targets.
    Preserve,
}

/// Policy for special files such as devices and sockets.
#[derive(Clone, Copy, Debug, PartialEq, Eq, Structural)]
pub enum SpecialFilePolicy {
    /// Reject special files.
    Reject,
    /// Preserve special files where the caller explicitly allows it.
    Preserve,
}

/// Policy for timestamps, modes and other optional metadata.
#[derive(Clone, Copy, Debug, PartialEq, Eq, Structural)]
pub enum MetadataPolicy {
    /// Do not restore metadata.
    Ignore,
    /// Restore safe regular-file and directory metadata.
    RestoreSafe,
}

/// The extraction safety policy.
#[derive(Clone, Copy, Debug, PartialEq, Eq, Structural)]
pub struct ExtractionPolicy {
    /// Link handling.
    pub links: LinkPolicy,
    /// Special-file handling.
    pub special_files: SpecialFilePolicy,
    /// Metadata handling.
    pub metadata: MetadataPolicy,
}

impl ExtractionPolicy {
    /// The default policy: links and special files rejected, safe metadata restored.
    pub open spec fn default_spec() -> ExtractionPolicy {
        ExtractionPolicy {
            links: LinkPolicy::Reject,
            special_files: SpecialFilePolicy::Reject,
            metadata: MetadataPolicy::RestoreSafe,
        }
    }
}

impl Default for ExtractionPolicy {
    fn default() -> (r: Self)
        ensures
            r == ExtractionPolicy::default_spec(),
            r.links == LinkPolicy::Reject,
            r.special_files == SpecialFilePolicy::Reject,
            r.metadata == MetadataPolicy::RestoreSafe,
    {
        ExtractionPolicy {
            links: LinkPolicy::Reject,
            special_files: SpecialFilePolicy::Reject,
            metadata: MetadataPolicy::RestoreSafe,
        }
    }
}

} // verus!
