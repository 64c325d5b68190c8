//! The schema converter: the downstream launcher's canonical version-file
//! schema, the conversion from the primary platform's version file into it,
//! and the legacy-override operation for hand-patched entries.
use vstd::prelude::*;

use crate::assoc::{assoc_get, spec_assoc_get};
use crate::coordinate::GradleSpecifier;
use crate::mojang::{
    MojangArtifact, MojangArtifactBase, MojangAssets, MojangLibrary, MojangLibraryDownloads,
    MojangVersionFile,
};
use crate::MetaError;

verus! {

/// The format version this engine writes, and the highest it accepts.
pub const CURRENT_POLYMC_FORMAT_VERSION: u8 = 1;

/// The default format version of a payload that names none.
pub fn default_format_version() -> (r: u8)
    ensures
        r == CURRENT_POLYMC_FORMAT_VERSION,
{
    CURRENT_POLYMC_FORMAT_VERSION
}

/// The symmetric bound check applied to the canonical format version on
/// both the read and the write path.
pub fn validate_format_version(v: u8, max: u8) -> (r: Result<u8, MetaError>)
    ensures
        match r {
            Ok(o) => o == v && v <= max,
            Err(e) => v > max && e == (MetaError::UnsupportedFormatVersion {
                got: v as i32,
                max: max as i32,
            }),
        },
{
    if v > max {
        Err(MetaError::UnsupportedFormatVersion { got: v as i32, max: max as i32 })
    } else {
        Ok(v)
    }
}

/// A canonical library entry: a primary-platform library widened with two
/// optional hint fields.
#[derive(Debug, Clone)]
pub struct PolyMCLibrary {
    pub library: MojangLibrary,
    pub url: Option<String>,
    pub mmc_hint: Option<String>,
}

impl vstd::std_specs::convert::FromSpecImpl<MojangLibrary> for PolyMCLibrary {
    open spec fn obeys_from_spec() -> bool {
        true
    }

    open spec fn from_spec(lib: MojangLibrary) -> Self {
        PolyMCLibrary { library: lib, url: None, mmc_hint: None }
    }
}

impl From<MojangLibrary> for PolyMCLibrary {
    /// Widening adds no semantic content: both hints start absent.
    fn from(lib: MojangLibrary) -> Self {
        PolyMCLibrary { url: None, mmc_hint: None, library: lib }
    }
}

/// The bounded format-version tag every canonical payload carries.
#[derive(Debug, Clone)]
pub struct VersionedJsonObject {
    pub format_version: u8,
}

/// One dependency requirement or conflict of a canonical version file.
#[derive(Debug, Clone)]
pub struct DependencyEntry {
    pub uid: String,
    pub equal: Option<String>,
    pub suggests: Option<String>,
}

/// The downstream launcher's canonical version file.
#[derive(Debug)]
pub struct PolyMCVersionFile {
    pub versioned_json_object: VersionedJsonObject,
    pub name: String,
    pub version: String,
    pub uid: String,
    pub requires_entries: Option<Vec<DependencyEntry>>,
    pub conflicts: Option<Vec<DependencyEntry>>,
    pub volatile: Option<bool>,
    pub asset_index: Option<MojangAssets>,
    pub libraries: Option<Vec<PolyMCLibrary>>,
    pub maven_files: Option<Vec<PolyMCLibrary>>,
    pub main_jar: Option<PolyMCLibrary>,
    pub jar_mods: Option<Vec<PolyMCLibrary>>,
    pub main_class: Option<String>,
    pub applet_class: Option<String>,
    pub minecraft_arguments: Option<String>,
    pub release_time: Option<String>,
    pub version_file_type: Option<String>,
    pub add_traits: Option<Vec<String>>,
    pub add_tweakers: Option<Vec<String>>,
    pub order: Option<i32>,
}

/// A hand-authored override for one legacy entry.
#[derive(Debug, Clone)]
pub struct LegacyOverrideEntry {
    pub release_time: Option<String>,
    pub main_class: Option<String>,
    pub applet_class: Option<String>,
    pub add_traits: Option<Vec<String>>,
}

/// Whether a primary-platform file carries the contractually required
/// `client` download descriptor.
pub open spec fn spec_has_client_download(file: MojangVersionFile) -> bool {
    match file.downloads {
        Some(d) => spec_assoc_get(d@, "client"@) is Some,
        None => false,
    }
}

/// A fresh canonical file: everything empty but the identity fields.
pub open spec fn spec_fresh_file(r: PolyMCVersionFile, name: String, version: String, uid: String) -> bool {
    &&& r.versioned_json_object.format_version == CURRENT_POLYMC_FORMAT_VERSION
    &&& r.name == name
    &&& r.version == version
    &&& r.uid == uid
    &&& r.requires_entries is None
    &&& r.conflicts is None
    &&& r.volatile is None
    &&& r.asset_index is None
    &&& r.libraries is None
    &&& r.maven_files is None
    &&& r.main_jar is None
    &&& r.jar_mods is None
    &&& r.main_class is None
    &&& r.applet_class is None
    &&& r.minecraft_arguments is None
    &&& r.release_time is None
    &&& r.version_file_type is None
    &&& r.add_traits is None
    &&& r.add_tweakers is None
    &&& r.order is None
}

impl PolyMCVersionFile {
    /// A canonical file holding nothing but its identity.
    pub fn new(name: String, version: String, uid: String) -> (r: Self)
        ensures
            spec_fresh_file(r, name, version, uid),
    {
        PolyMCVersionFile {
            versioned_json_object: VersionedJsonObject {
                format_version: CURRENT_POLYMC_FORMAT_VERSION,
            },
            name,
            version,
            uid,
            requires_entries: None,
            conflicts: None,
            volatile: None,
            asset_index: None,
            libraries: None,
            maven_files: None,
            main_jar: None,
            jar_mods: None,
            main_class: None,
            applet_class: None,
            minecraft_arguments: None,
            release_time: None,
            version_file_type: None,
            add_traits: None,
            add_tweakers: None,
            order: None,
        }
    }

    /// Convert a primary-platform version file into the canonical schema:
    /// asset index, main class, legacy argument string and release time are
    /// carried verbatim; each library is widened; one extra main-jar
    /// library is synthesized from the file id and its `client` download;
    /// compliance level `1` becomes one capability-trait tag, any other
    /// level is a hard fault, as is a missing `client` download.
    pub fn from_mojang_file(file: MojangVersionFile, name: String, uid: String, version: String)
        -> (r: Result<Self, MetaError>)
        ensures
            match r {
                Ok(pmc) => {
                    &&& (match file.id {
                        Some(fid) => spec_has_client_download(file),
                        None => true,
                    })
                    &&& (match file.compliance_level {
                        Some(level) => level == 1,
                        None => true,
                    })
                    &&& pmc.versioned_json_object.format_version
                        == CURRENT_POLYMC_FORMAT_VERSION
                    &&& pmc.name == name
                    &&& pmc.version == version
                    &&& pmc.uid == uid
                    &&& pmc.asset_index == file.asset_index
                    &&& (match file.libraries {
                        Some(ls) => {
                            &&& pmc.libraries matches Some(pl)
                            &&& pmc.libraries->0@.len() == ls@.len()
                            &&& forall|i: int|
                                0 <= i < ls@.len() ==> (#[trigger] pmc.libraries->0@[i]).library
                                    == ls@[i] && pmc.libraries->0@[i].url is None
                                    && pmc.libraries->0@[i].mmc_hint is None
                        },
                        None => pmc.libraries is None,
                    })
                    &&& pmc.main_class == file.main_class
                    &&& (match file.id {
                        Some(fid) => {
                            &&& pmc.main_jar matches Some(mj)
                            &&& {
                                let mj = pmc.main_jar->0;
                                &&& mj.library.name.group@ == "com.mojang"@
                                &&& mj.library.name.artifact@ == "minecraft"@
                                &&& mj.library.name.version == fid
                                &&& mj.library.name.extension matches Some(e) && e@ == "jar"@
                                &&& mj.library.name.classifier matches Some(c) && c@
                                    == "client"@
                                &&& mj.library.extract is None
                                &&& mj.library.natives is None
                                &&& mj.library.rules is None
                                &&& mj.library.downloads matches Some(dl)
                                &&& mj.library.downloads->0.classifiers is None
                                &&& mj.library.downloads->0.artifact matches Some(a)
                                &&& mj.library.downloads->0.artifact->0.path is None
                                &&& mj.library.downloads->0.artifact->0.artifact_base
                                    == spec_assoc_get(file.downloads->0@, "client"@)->0
                                &&& mj.url is None
                                &&& mj.mmc_hint is None
                            }
                        },
                        None => pmc.main_jar is None,
                    })
                    &&& pmc.minecraft_arguments == file.minecraft_arguments
                    &&& pmc.release_time == file.release_time
                    &&& pmc.version_file_type == file.version_type
                    &&& (match file.compliance_level {
                        Some(level) => {
                            &&& pmc.add_traits matches Some(ts)
                            &&& pmc.add_traits->0@.len() == 1
                            &&& pmc.add_traits->0@[0]@ == "XR:Initial"@
                        },
                        None => pmc.add_traits is None,
                    })
                    &&& pmc.requires_entries is None
                    &&& pmc.conflicts is None
                    &&& pmc.volatile is None
                    &&& pmc.maven_files is None
                    &&& pmc.jar_mods is None
                    &&& pmc.applet_class is None
                    &&& pmc.add_tweakers is None
                    &&& pmc.order is None
                },
                Err(e) => {
                    ||| (file.id is Some && !spec_has_client_download(file) && e
                        == MetaError::MissingRequiredDownload)
                    ||| ((file.id is None || spec_has_client_download(file)) && (match file
                        .compliance_level {
                        Some(level) => level != 1 && e == (MetaError::UnsupportedComplianceLevel {
                            got: level,
                            max: 1,
                        }),
                        None => false,
                    }))
                },
            },
    {
        let mut pmc_file = Self::new(name, version, uid);

        pmc_file.asset_index = file.asset_index;
        pmc_file.libraries = match file.libraries {
            Some(ls) => {
                let ghost orig = ls@;
                let n = ls.len();
                let mut pl: Vec<PolyMCLibrary> = Vec::new();
                let mut idx: usize = 0;
                let mut rest = ls;
                proof {
                    assert(rest@ =~= orig.subrange(0, n as int));
                }
                // consume the libraries front to back, widening each
                while idx < n
                    invariant
                        n == orig.len(),
                        0 <= idx <= n,
                        rest@ == orig.subrange(idx as int, n as int),
                        pl@.len() == idx,
                        forall|k: int|
                            0 <= k < idx ==> (#[trigger] pl@[k]).library == orig[k] && pl@[k].url
                                is None && pl@[k].mmc_hint is None,
                    decreases n - idx,
                {
                    let lib = rest.remove(0);
                    proof {
                        assert(lib == orig[idx as int]);
                        assert(orig.subrange(idx as int, n as int).remove(0) =~= orig.subrange(
                            idx as int + 1,
                            n as int,
                        ));
                    }
                    let widened = PolyMCLibrary::from(lib);
                    pl.push(widened);
                    idx += 1;
                }
                Some(pl)
            },
            None => None,
        };
        pmc_file.main_class = file.main_class;
        match &file.id {
            Some(fid) => {
                let client_downloads = match &file.downloads {
                    Some(d) => match assoc_get(d, "client") {
                        Some(cd) => cd,
                        None => {
                            return Err(MetaError::MissingRequiredDownload);
                        },
                    },
                    None => {
                        return Err(MetaError::MissingRequiredDownload);
                    },
                };
                let main_jar = PolyMCLibrary {
                    library: MojangLibrary {
                        name: GradleSpecifier {
                            group: "com.mojang".to_owned(),
                            artifact: "minecraft".to_owned(),
                            version: fid.clone(),
                            extension: Some("jar".to_owned()),
                            classifier: Some("client".to_owned()),
                        },
                        extract: None,
                        downloads: Some(
                            MojangLibraryDownloads {
                                artifact: Some(
                                    MojangArtifact {
                                        artifact_base: client_downloads.clone(),
                                        path: None,
                                    },
                                ),
                                classifiers: None,
                            },
                        ),
                        natives: None,
                        rules: None,
                    },
                    url: None,
                    mmc_hint: None,
                };
                pmc_file.main_jar = Some(main_jar);
            },
            None => {},
        }

        pmc_file.minecraft_arguments = file.minecraft_arguments;
        pmc_file.release_time = file.release_time;
        pmc_file.version_file_type = file.version_type;
        match file.compliance_level {
            Some(level) => {
                if level == 1 {
                    let mut ts: Vec<String> = Vec::new();
                    ts.push("XR:Initial".to_owned());
                    pmc_file.add_traits = Some(ts);
                } else {
                    return Err(
                        MetaError::UnsupportedComplianceLevel { got: level, max: 1 },
                    );
                }
            },
            None => {},
        }

        Ok(pmc_file)
    }

    /// Apply a hand-authored legacy override: main class, applet class and
    /// (when given) release time are overwritten, extra trait tags are
    /// appended, and the converted library list and legacy argument string
    /// are discarded as unreliable.
    pub fn apply_legacy_override(&mut self, legacy_override: &LegacyOverrideEntry)
        ensures
            final(self).main_class == legacy_override.main_class,
            final(self).applet_class == legacy_override.applet_class,
            final(self).release_time == (match legacy_override.release_time {
                Some(t) => Some(t),
                None => old(self).release_time,
            }),
            final(self).libraries is None,
            final(self).minecraft_arguments is None,
            match legacy_override.add_traits {
                Some(extra) => final(self).add_traits matches Some(ts)
                    && final(self).add_traits->0@ == (match old(self).add_traits {
                    Some(prior) => prior@,
                    None => Seq::<String>::empty(),
                }) + extra@,
                None => final(self).add_traits == old(self).add_traits,
            },
            final(self).versioned_json_object == old(self).versioned_json_object,
            final(self).name == old(self).name,
            final(self).version == old(self).version,
            final(self).uid == old(self).uid,
            final(self).requires_entries == old(self).requires_entries,
            final(self).conflicts == old(self).conflicts,
            final(self).volatile == old(self).volatile,
            final(self).asset_index == old(self).asset_index,
            final(self).maven_files == old(self).maven_files,
            final(self).main_jar == old(self).main_jar,
            final(self).jar_mods == old(self).jar_mods,
            final(self).version_file_type == old(self).version_file_type,
            final(self).add_tweakers == old(self).add_tweakers,
            final(self).order == old(self).order,
    {
        self.main_class = match &legacy_override.main_class {
            Some(s) => Some(s.clone()),
            None => None,
        };
        self.applet_class = match &legacy_override.applet_class {
            Some(s) => Some(s.clone()),
            None => None,
        };
        if let Some(release_time) = &legacy_override.release_time {
            self.release_time = Some(release_time.clone());
        }
        if let Some(extra) = &legacy_override.add_traits {
            let mut ts = match self.add_traits.take() {
                Some(prior) => prior,
                None => Vec::new(),
            };
            let ghost base = ts@;
            let n = extra.len();
            let mut i: usize = 0;
            proof {
                assert(ts@ =~= base + extra@.subrange(0, 0));
            }
            while i < n
                invariant
                    n == extra@.len(),
                    0 <= i <= n,
                    ts@ == base + extra@.subrange(0, i as int),
                decreases n - i,
            {
                ts.push(extra[i].clone());
                proof {
                    assert(base + extra@.subrange(0, i as int + 1) =~= (base + extra@.subrange(
                        0,
                        i as int,
                    )).push(extra@[i as int]));
                }
                i += 1;
            }
            proof {
                assert(extra@.subrange(0, n as int) =~= extra@);
            }
            self.add_traits = Some(ts);
        }

        self.libraries = None;
        self.minecraft_arguments = None;
    }
}

/// The shared package metadata written beside the canonical version files.
#[derive(Debug, Clone)]
pub struct PolyMCSharedPackageData {
    pub versioned_json_object: VersionedJsonObject,
    pub name: String,
    pub uid: String,
    pub recommended: Option<Vec<String>>,
    pub authors: Option<Vec<String>>,
    pub description: Option<String>,
    pub project_url: Option<String>,
}

impl PolyMCSharedPackageData {
    /// Fresh package data: the identity fields under the current format
    /// version, everything else absent. Persisting it is the caller's job.
    pub fn new(uid: String, name: String) -> (r: Self)
        ensures
            r.versioned_json_object.format_version == CURRENT_POLYMC_FORMAT_VERSION,
            r.name == name,
            r.uid == uid,
            r.recommended is None,
            r.authors is None,
            r.description is None,
            r.project_url is None,
    {
        PolyMCSharedPackageData {
            versioned_json_object: VersionedJsonObject {
                format_version: CURRENT_POLYMC_FORMAT_VERSION,
            },
            name,
            uid,
            recommended: None,
            authors: None,
            description: None,
            project_url: None,
        }
    }
}

/// One entry of the canonical per-component version index.
#[derive(Debug, Clone)]
pub struct PolyMCVersionIndexEntry {
    pub version: String,
    pub version_type: Option<String>,
    pub release_time: Option<String>,
    pub requires_entries: Option<Vec<DependencyEntry>>,
    pub conflicts: Option<Vec<DependencyEntry>>,
    pub recommended: Option<bool>,
    pub volatile: Option<bool>,
    pub sha256: String,
}

/// The canonical per-component version index.
#[derive(Debug, Clone)]
pub struct PolyMCVersionIndex {
    pub versioned_json_object: VersionedJsonObject,
    pub name: String,
    pub uid: String,
    pub versions: Vec<PolyMCVersionIndexEntry>,
}

/// One entry of the canonical package index.
#[derive(Debug, Clone)]
pub struct PolyMCPackageIndexEntry {
    pub name: String,
    pub uid: String,
    pub sha256: String,
}

/// The canonical package index.
#[derive(Debug, Clone)]
pub struct PolyMCPackageIndex {
    pub versioned_json_object: VersionedJsonObject,
    pub packages: Vec<PolyMCPackageIndexEntry>,
}

} // verus!
