//! Metadata normalization engine for game mod-loader version indexes.
//!
//! The crate parses Gradle-style artifact coordinates, resolves version-file
//! payloads against an ordered set of historical schema generations, derives a
//! per-platform-version build index with deterministic latest/recommended
//! selection, and converts the primary platform's version files into the
//! downstream launcher's schema. Network retrieval, caching and persistence
//! are left to callers; every function here is pure computation over plain
//! values, with its behaviour stated in `requires`/`ensures` contracts.
use vstd::prelude::*;

pub mod assoc;
pub mod coordinate;
pub mod fabric;
pub mod forge;
pub mod forge_index;
pub mod jsonval;
pub mod liteloader;
pub mod mojang;
pub mod polymc;
pub mod profiles;
pub mod strutil;

verus! {

/// The failure taxonomy of the whole engine.
///
/// `MalformedCoordinate`, and hash or legacy-profile defects handled inside
/// the resolver, are locally recoverable: the offending unit is skipped.
/// The remaining variants are non-recoverable and abort a whole resolution
/// run.
#[derive(Debug, Clone, Copy, PartialEq, Eq, Structural)]
pub enum MetaError {
    /// An artifact coordinate had fewer than three colon-separated segments.
    MalformedCoordinate,
    /// A promotion key or build string did not follow its grammar.
    UnparseableMetadata,
    /// Upstream data contradicted itself (platform-version mismatch or a
    /// duplicate classifier within one build).
    DataIntegrityFault,
    /// No installer-profile schema generation matched a supported build.
    UnparseableInstallerProfile,
    /// A primary-platform version file carried no "client" download.
    MissingRequiredDownload,
    /// A compliance level above the supported maximum.
    UnsupportedComplianceLevel { got: i32, max: i32 },
    /// A format version above the supported maximum.
    UnsupportedFormatVersion { got: i32, max: i32 },
}

} // verus!
