//! The liteloader project's metadata model. Its payload needs no schema
//! reconciliation; the model exists so callers can carry it as plain
//! values.
use vstd::prelude::*;

use crate::polymc::PolyMCLibrary;

verus! {

#[derive(Debug, Clone)]
pub struct LiteloaderRepo {
    pub stream: String,
    pub repo_type: String,
    pub url: String,
    pub classifier: String,
}

#[derive(Debug, Clone)]
pub struct LiteloaderArtifact {
    pub tweak_class: String,
    pub libraries: Vec<PolyMCLibrary>,
    pub stream: String,
    pub file: String,
    pub version: String,
    pub build: Option<String>,
    pub md5: String,
    pub timestamp: String,
    pub src_jar: Option<String>,
    pub mcp_jar: Option<String>,
}

#[derive(Debug, Clone)]
pub struct LiteloaderDev {
    pub fg_version: Option<String>,
    pub mappings: Option<String>,
    pub mcp: Option<String>,
}

#[derive(Debug, Clone)]
pub struct LiteloaderArtifacts {
    pub liteloader: Vec<(String, LiteloaderArtifact)>,
}

#[derive(Debug, Clone)]
pub struct LiteloaderSnapshot {
    pub artefact: LiteloaderArtifact,
    pub last_successful_build: Option<u64>,
}

#[derive(Debug, Clone)]
pub struct LiteloaderSnapshots {
    pub libraries: Vec<PolyMCLibrary>,
    pub liteloader: Vec<(String, LiteloaderSnapshot)>,
}

#[derive(Debug, Clone)]
pub struct LiteloaderEntry {
    pub dev: Option<LiteloaderDev>,
    pub repo: LiteloaderRepo,
    pub artifacts: Option<LiteloaderArtifacts>,
    pub snapshots: Option<LiteloaderSnapshots>,
}

#[derive(Debug, Clone)]
pub struct LiteloaderMeta {
    pub description: String,
    pub authors: String,
    pub url: String,
    pub updated: String,
    pub updated_time: u64,
}

#[derive(Debug, Clone)]
pub struct LiteloaderIndex {
    pub meta: LiteloaderMeta,
    pub versions: Option<Vec<(String, LiteloaderEntry)>>,
}

} // verus!
