//! The primary platform's version-index and version-file model, and the
//! memoized id-to-entry lookup over the raw index.
use vstd::prelude::*;
use vstd::pervasive::unreached;

use crate::assoc::{spec_assoc_get, spec_assoc_insert, assoc_insert};
use crate::forge_index::{contains_string, spec_strs_contain};
use crate::coordinate::GradleSpecifier;
use crate::jsonval::JsonValue;
use crate::MetaError;

verus! {

/// Highest minimum-launcher-version this engine accepts, on both the read
/// and the write path.
pub const MAX_MOJANG_SUPPORTED_VERSION: i32 = 21;

/// The symmetric bound check applied to the minimum-launcher-version field
/// whenever a version file is read or written. The ceiling is passed in
/// explicitly so independent runs can carry independent ceilings.
pub fn validate_launcher_version(v: Option<i32>, max: i32) -> (r: Result<Option<i32>, MetaError>)
    ensures
        match r {
            Ok(o) => o == v && (v is Some ==> v->0 <= max),
            Err(e) => v is Some && v->0 > max && e == (MetaError::UnsupportedFormatVersion {
                got: v->0,
                max,
            }),
        },
{
    match v {
        Some(x) => {
            if x > max {
                Err(MetaError::UnsupportedFormatVersion { got: x, max })
            } else {
                Ok(Some(x))
            }
        },
        None => Ok(None),
    }
}

/// A single entry of the remote version index. Immutable once constructed.
#[derive(Debug)]
pub struct MojangIndexEntry {
    pub id: String,
    pub release_time: String,
    pub time: String,
    pub version_type: String,
    pub url: String,
    pub sha1: Option<String>,
    pub compliance_level: Option<i32>,
}

impl Clone for MojangIndexEntry {
    fn clone(&self) -> (r: Self)
        ensures
            r == *self,
    {
        MojangIndexEntry {
            id: self.id.clone(),
            release_time: self.release_time.clone(),
            time: self.time.clone(),
            version_type: self.version_type.clone(),
            url: self.url.clone(),
            sha1: match &self.sha1 {
                Some(s) => Some(s.clone()),
                None => None,
            },
            compliance_level: self.compliance_level,
        }
    }
}

/// The id-to-entry lookup built from a sequence of entries: every entry
/// inserted in order, a later duplicate id replacing an earlier one.
pub open spec fn spec_build_version_map(versions: Seq<MojangIndexEntry>) -> Seq<
    (String, MojangIndexEntry),
>
    decreases versions.len(),
{
    if versions.len() == 0 {
        Seq::<(String, MojangIndexEntry)>::empty()
    } else {
        spec_assoc_insert(
            spec_build_version_map(versions.drop_last()),
            versions.last().id,
            versions.last(),
        )
    }
}

/// The remote index of all versions: the raw ordered sequence plus a
/// lookup built on first access.
///
/// The lookup, once built, reflects the sequence as it existed at the
/// moment of the first build; appending to `versions` afterwards does not
/// refresh it. [`lemma_version_map_ignores_late_push`] states this.
#[derive(Debug)]
pub struct MojangIndex {
    pub latest: Vec<(String, String)>,
    pub versions: Vec<MojangIndexEntry>,
    pub version_map: Option<Vec<(String, MojangIndexEntry)>>,
}

/// What a lookup on the index returns: the memo when one was built, else
/// the lookup that a build would produce now.
pub open spec fn spec_version_map_of(idx: MojangIndex) -> Seq<(String, MojangIndexEntry)> {
    match idx.version_map {
        Some(m) => m@,
        None => spec_build_version_map(idx.versions@),
    }
}

impl MojangIndex {
    /// A fresh index with nothing memoized.
    pub fn new() -> (r: MojangIndex)
        ensures
            r.latest@ == Seq::<(String, String)>::empty(),
            r.versions@ == Seq::<MojangIndexEntry>::empty(),
            r.version_map is None,
    {
        MojangIndex { latest: Vec::new(), versions: Vec::new(), version_map: None }
    }

    fn build_map(versions: &Vec<MojangIndexEntry>) -> (r: Vec<(String, MojangIndexEntry)>)
        ensures
            r@ == spec_build_version_map(versions@),
    {
        let n = versions.len();
        let mut map: Vec<(String, MojangIndexEntry)> = Vec::new();
        let mut i: usize = 0;
        proof {
            assert(versions@.subrange(0, 0) =~= Seq::<MojangIndexEntry>::empty());
        }
        while i < n
            invariant
                n == versions@.len(),
                0 <= i <= n,
                map@ == spec_build_version_map(versions@.subrange(0, i as int)),
            decreases n - i,
        {
            let key = versions[i].id.clone();
            let entry = versions[i].clone();
            proof {
                let pre = versions@.subrange(0, i as int + 1);
                assert(pre.drop_last() =~= versions@.subrange(0, i as int));
                assert(pre.last() == versions@[i as int]);
            }
            assoc_insert(&mut map, key, entry);
            i += 1;
        }
        proof {
            assert(versions@.subrange(0, n as int) =~= versions@);
        }
        map
    }

    /// Fill the lookup (when still empty) and return it. A second call
    /// returns the same map again, whatever happened to `versions` since.
    pub fn version_map(&mut self) -> (r: &Vec<(String, MojangIndexEntry)>)
        ensures
            final(self).latest == old(self).latest,
            final(self).versions == old(self).versions,
            r@ == spec_version_map_of(*old(self)),
            final(self).version_map is Some,
            final(self).version_map->0@ == r@,
            old(self).version_map is Some ==> final(self).version_map == old(self).version_map,
    {
        if self.version_map.is_none() {
            let map = Self::build_map(&self.versions);
            self.version_map = Some(map);
        }
        match &self.version_map {
            Some(m) => m,
            None => unreached(),
        }
    }

    /// Append an entry to the backing sequence. The memoized lookup, built
    /// or not, is left exactly as it was.
    pub fn push_version(&mut self, entry: MojangIndexEntry)
        ensures
            final(self).versions@ == old(self).versions@.push(entry),
            final(self).version_map == old(self).version_map,
            final(self).latest == old(self).latest,
    {
        self.versions.push(entry);
    }

    /// Lookup one id through the memoized map.
    pub fn lookup(&mut self, id: &str) -> (r: Option<&MojangIndexEntry>)
        ensures
            final(self).latest == old(self).latest,
            final(self).versions == old(self).versions,
            final(self).version_map is Some,
            old(self).version_map is Some ==> final(self).version_map == old(self).version_map,
            match r {
                Some(e) => spec_assoc_get(spec_version_map_of(*old(self)), id@) == Some(*e),
                None => spec_assoc_get(spec_version_map_of(*old(self)), id@) is None,
            },
    {
        let map = self.version_map();
        crate::assoc::assoc_get(map, id)
    }
}

/// The ids of `xs` that do not occur in `ys`, in order.
pub open spec fn spec_ids_not_in(xs: Seq<String>, ys: Seq<String>) -> Seq<String>
    decreases xs.len(),
{
    if xs.len() == 0 {
        Seq::<String>::empty()
    } else {
        let front = spec_ids_not_in(xs.drop_last(), ys);
        if !spec_strs_contain(ys, xs.last()@) {
            front.push(xs.last())
        } else {
            front
        }
    }
}

/// The ids of `xs` that occur in `ys`, in order.
pub open spec fn spec_ids_in(xs: Seq<String>, ys: Seq<String>) -> Seq<String>
    decreases xs.len(),
{
    if xs.len() == 0 {
        Seq::<String>::empty()
    } else {
        let front = spec_ids_in(xs.drop_last(), ys);
        if spec_strs_contain(ys, xs.last()@) {
            front.push(xs.last())
        } else {
            front
        }
    }
}

/// What one refresh run has to fetch: the remote ids that are new (absent
/// locally), and the ids both sides share, whose timestamps the caller then
/// compares. Both lists keep the remote respectively local order.
pub fn version_diff(local_ids: &Vec<String>, remote_ids: &Vec<String>) -> (r: (
    Vec<String>,
    Vec<String>,
))
    ensures
        r.0@ == spec_ids_not_in(remote_ids@, local_ids@),
        r.1@ == spec_ids_in(local_ids@, remote_ids@),
{
    let mut new_ids: Vec<String> = Vec::new();
    let n = remote_ids.len();
    let mut i: usize = 0;
    proof {
        assert(remote_ids@.subrange(0, 0) =~= Seq::<String>::empty());
    }
    while i < n
        invariant
            n == remote_ids@.len(),
            0 <= i <= n,
            new_ids@ == spec_ids_not_in(remote_ids@.subrange(0, i as int), local_ids@),
        decreases n - i,
    {
        proof {
            assert(remote_ids@.subrange(0, i as int + 1).drop_last() =~= remote_ids@.subrange(
                0,
                i as int,
            ));
            assert(remote_ids@.subrange(0, i as int + 1).last() == remote_ids@[i as int]);
        }
        if !contains_string(local_ids, remote_ids[i].as_str()) {
            new_ids.push(remote_ids[i].clone());
        }
        i += 1;
    }
    proof {
        assert(remote_ids@.subrange(0, n as int) =~= remote_ids@);
    }

    let mut common_ids: Vec<String> = Vec::new();
    let m = local_ids.len();
    let mut j: usize = 0;
    proof {
        assert(local_ids@.subrange(0, 0) =~= Seq::<String>::empty());
    }
    while j < m
        invariant
            m == local_ids@.len(),
            0 <= j <= m,
            common_ids@ == spec_ids_in(local_ids@.subrange(0, j as int), remote_ids@),
        decreases m - j,
    {
        proof {
            assert(local_ids@.subrange(0, j as int + 1).drop_last() =~= local_ids@.subrange(
                0,
                j as int,
            ));
            assert(local_ids@.subrange(0, j as int + 1).last() == local_ids@[j as int]);
        }
        if contains_string(remote_ids, local_ids[j].as_str()) {
            common_ids.push(local_ids[j].clone());
        }
        j += 1;
    }
    proof {
        assert(local_ids@.subrange(0, m as int) =~= local_ids@);
    }

    (new_ids, common_ids)
}

/// The staleness contract of the memoized lookup: any change to the
/// backing sequence that leaves the memo in place (as `push_version` does)
/// leaves the result of every later lookup unchanged.
pub proof fn lemma_version_map_ignores_late_push(before: MojangIndex, after: MojangIndex)
    requires
        before.version_map is Some,
        after.version_map == before.version_map,
    ensures
        spec_version_map_of(after) == spec_version_map_of(before),
{
}

#[derive(Debug)]
pub struct MojangArtifactBase {
    pub sha1: Option<String>,
    pub size: Option<i64>,
    pub url: String,
}

impl Clone for MojangArtifactBase {
    fn clone(&self) -> (r: Self)
        ensures
            r == *self,
    {
        MojangArtifactBase {
            sha1: match &self.sha1 {
                Some(s) => Some(s.clone()),
                None => None,
            },
            size: self.size,
            url: self.url.clone(),
        }
    }
}

#[derive(Debug)]
pub struct MojangArtifact {
    pub artifact_base: MojangArtifactBase,
    pub path: Option<String>,
}

impl Clone for MojangArtifact {
    fn clone(&self) -> (r: Self)
        ensures
            r == *self,
    {
        MojangArtifact {
            artifact_base: self.artifact_base.clone(),
            path: match &self.path {
                Some(s) => Some(s.clone()),
                None => None,
            },
        }
    }
}

#[derive(Debug)]
pub struct MojangAssets {
    pub artifact: MojangArtifactBase,
    pub id: String,
    pub total_size: i64,
}

impl Clone for MojangAssets {
    fn clone(&self) -> (r: Self)
        ensures
            r == *self,
    {
        MojangAssets {
            artifact: self.artifact.clone(),
            id: self.id.clone(),
            total_size: self.total_size,
        }
    }
}

#[derive(Debug, Clone)]
pub struct MojangLibraryDownloads {
    pub artifact: Option<MojangArtifact>,
    pub classifiers: Option<Vec<(String, MojangArtifact)>>,
}

#[derive(Debug, Clone)]
pub struct MojangLibraryExtractRules {
    pub exclude: Vec<String>,
}

#[derive(Debug, Clone, PartialEq, Eq, Structural)]
pub enum OSName {
    Windows,
    Linux,
    MacOS,
}

#[derive(Debug, Clone)]
pub struct OSRule {
    pub name: OSName,
    pub rules: Option<String>,
}

#[derive(Debug, Clone, PartialEq, Eq, Structural)]
pub enum MojangAction {
    Allow,
    Disallow,
}

#[derive(Debug, Clone)]
pub struct MojangRule {
    pub action: MojangAction,
    pub os: Option<OSRule>,
}

#[derive(Debug, Clone)]
pub struct MojangLibrary {
    pub extract: Option<MojangLibraryExtractRules>,
    pub name: GradleSpecifier,
    pub downloads: Option<MojangLibraryDownloads>,
    pub natives: Option<Vec<(String, String)>>,
    pub rules: Option<Vec<MojangRule>>,
}

#[derive(Debug, Clone)]
pub struct MojangLoggingArtifact {
    pub artifact: MojangArtifactBase,
    pub id: String,
}

#[derive(Debug, Clone, PartialEq, Eq, Structural)]
pub enum MojangLoggingType {
    Log4J2Xml,
}

#[derive(Debug, Clone)]
pub struct MojangLogging {
    pub file: MojangLoggingArtifact,
    pub argument: String,
    pub logging_type: MojangLoggingType,
}

#[derive(Debug)]
pub struct MojangArguments {
    pub game: Option<Vec<String>>,
    pub jvm: Option<Vec<JsonValue>>,
}

/// The runtime component assumed when a version file names none.
pub fn default_java_component() -> (r: String)
    ensures
        r@ == "jre-legacy"@,
{
    "jre-legacy".to_owned()
}

/// The major Java version assumed when a version file names none.
pub fn default_java_version() -> (r: u8)
    ensures
        r == 8,
{
    8
}

#[derive(Debug, Clone)]
pub struct JavaVersion {
    pub component: String,
    pub major_version: u8,
}

/// A primary-platform version file, with dates and durations carried as the
/// verbatim text the upstream payload held.
#[derive(Debug)]
pub struct MojangVersionFile {
    pub arguments: Option<MojangArguments>,
    pub asset_index: Option<MojangAssets>,
    pub assets: Option<String>,
    pub downloads: Option<Vec<(String, MojangArtifactBase)>>,
    pub id: Option<String>,
    pub libraries: Option<Vec<MojangLibrary>>,
    pub main_class: Option<String>,
    pub process_arguments: Option<String>,
    pub minecraft_arguments: Option<String>,
    pub minimum_launcher_version: Option<i32>,
    pub release_time: Option<String>,
    pub time: Option<String>,
    pub inherits_from: Option<String>,
    pub logging: Option<Vec<(String, MojangLogging)>>,
    pub compliance_level: Option<i32>,
    pub java_version: Option<JavaVersion>,
    pub version_type: Option<String>,
}

} // verus!
