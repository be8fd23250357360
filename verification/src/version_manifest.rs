//! The remote index of available versions, and selector resolution against
//! it. Manifest order defines recency: "latest" is simply the first entry.

use vstd::prelude::*;

use crate::component::{Error, Tag};
use crate::text::string_eq;

verus! {

#[derive(Debug)]
pub struct VersionManifest {
    pub latest: Release,
    pub versions: Vec<Version>,
}

/// The manifest's own latest pointers (informational; resolution goes by
/// entry order, not by these).
#[derive(Debug)]
pub struct Release {
    pub release: String,
    pub snapshot: String,
}

#[derive(Debug, Clone, Copy, PartialEq, Eq, Structural)]
pub enum VersionType {
    Snapshot,
    Release,
    OldBeta,
    OldAlpha,
}

/// One manifest entry: the reference (url plus digest) to a full per-version
/// document.
#[derive(Debug)]
pub struct Version {
    pub id: String,
    pub type_: VersionType,
    pub url: String,
    pub time: String,
    pub release_time: String,
    pub sha1: [u8; 20],
    pub compliance_level: u8,
}

/// Whether a manifest entry satisfies a selector: `Latest` accepts every
/// entry (the first one wins), `Stable` accepts releases, an id selects by
/// equality.
pub open spec fn selector_matches(entry: Version, selector: crate::component::Version) -> bool {
    match selector {
        crate::component::Version::Tag(Tag::Latest) => true,
        crate::component::Version::Tag(Tag::Stable) => entry.type_ is Release,
        crate::component::Version::Id(id) => entry.id@ == id@,
    }
}

/// Resolve a selector to the first matching entry, by manifest order; no
/// match is a fatal `VersionNotFound`, never a silent substitute.
pub fn resolve_version_entry(manifest: &VersionManifest, selector: &crate::component::Version) -> (r:
    Result<usize, Error>)
    ensures
        match r {
            Ok(i) => {
                &&& i < manifest.versions@.len()
                &&& selector_matches(manifest.versions@[i as int], *selector)
                &&& forall|j: int|
                    0 <= j < i ==> !selector_matches(#[trigger] manifest.versions@[j], *selector)
            },
            Err(e) => {
                &&& e is VersionNotFound
                &&& forall|j: int|
                    0 <= j < manifest.versions@.len() ==> !selector_matches(
                        #[trigger] manifest.versions@[j],
                        *selector,
                    )
            },
        },
{
    let n = manifest.versions.len();
    let mut i: usize = 0;
    while i < n
        invariant
            n == manifest.versions@.len(),
            i <= n,
            forall|j: int|
                0 <= j < i ==> !selector_matches(#[trigger] manifest.versions@[j], *selector),
        decreases n - i,
    {
        let entry = &manifest.versions[i];
        let matches = match selector {
            crate::component::Version::Tag(Tag::Latest) => true,
            crate::component::Version::Tag(Tag::Stable) => match entry.type_ {
                VersionType::Release => true,
                _ => false,
            },
            crate::component::Version::Id(id) => string_eq(&entry.id, id),
        };
        if matches {
            return Ok(i);
        }
        i = i + 1;
    }
    Err(Error::VersionNotFound)
}

} // verus!
