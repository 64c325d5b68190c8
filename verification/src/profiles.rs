//! The multi-schema installer-profile resolver: three structurally
//! overlapping historical schema generations, tried in a fixed order; the
//! first whose required fields validate wins.
use vstd::prelude::*;

use crate::coordinate::{spec_parse_coord, GradleSpecifier};
use crate::jsonval::{spec_get, JsonValue};
use crate::mojang::{
    JavaVersion, MojangArguments, MojangArtifactBase, MojangAssets, MojangLibrary, MojangLogging,
    MAX_MOJANG_SUPPORTED_VERSION,
};
use crate::MetaError;

verus! {

/// The required install section of the first schema generation.
#[derive(Debug, Clone)]
pub struct ForgeInstallerProfileInstallSection {
    pub profile_name: String,
    pub target: String,
    pub path: GradleSpecifier,
    pub version: String,
    pub file_path: String,
    pub welcome: String,
    pub minecraft: String,
    pub logo: String,
    pub mirror_list: String,
    pub mod_list: Option<String>,
}

/// A library entry widened with the loader's optional hint fields.
#[derive(Debug, Clone)]
pub struct ForgeLibrary {
    pub library: MojangLibrary,
    pub url: Option<String>,
    pub server_req: Option<bool>,
    pub client_req: Option<bool>,
    pub checksums: Option<Vec<String>>,
    pub comment: Option<String>,
}

/// The loader's own version file: the primary platform's fields plus the
/// widened libraries and a `jar` override.
#[derive(Debug)]
pub struct ForgeVersionFile {
    pub arguments: Option<MojangArguments>,
    pub asset_index: Option<MojangAssets>,
    pub assets: Option<String>,
    pub downloads: Option<Vec<(String, MojangArtifactBase)>>,
    pub id: Option<String>,
    pub libraries: Option<Vec<ForgeLibrary>>,
    pub main_class: Option<String>,
    pub process_arguments: Option<String>,
    pub minecraft_arguments: Option<String>,
    pub minimum_launcher_version: Option<i32>,
    pub release_time: Option<String>,
    pub time: Option<String>,
    pub inherits_from: Option<String>,
    pub logging: Option<Vec<(String, MojangLogging)>>,
    pub compliance_level: Option<i32>,
    pub java_version: Option<JavaVersion>,
    pub version_type: Option<String>,
    pub jar: Option<String>,
}

/// One optional component of a generation-1 profile.
#[derive(Debug, Clone)]
pub struct ForgeOptional {
    pub name: Option<String>,
    pub client: Option<bool>,
    pub server: Option<bool>,
    pub default: Option<bool>,
    pub inject: Option<bool>,
    pub description: Option<String>,
    pub url: Option<String>,
    pub artifact: Option<GradleSpecifier>,
    pub maven: Option<String>,
}

/// Generation 1: a nested install section plus a version file.
#[derive(Debug)]
pub struct ForgeInstallerProfile {
    pub install: ForgeInstallerProfileInstallSection,
    pub version_info: ForgeVersionFile,
    pub optionals: Option<Vec<ForgeOptional>>,
}

/// Hashes and release time of one legacy build.
#[derive(Debug, Clone)]
pub struct ForgeLegacyInfo {
    pub release_time: Option<String>,
    pub size: Option<i32>,
    pub sha256: Option<String>,
    pub sha1: Option<String>,
}

/// The hand-maintained table of legacy build information.
#[derive(Debug, Clone)]
pub struct ForgeLegacyInfoList {
    pub number: Option<Vec<(String, ForgeLegacyInfo)>>,
}

/// The client/server data pair of a generation-2 profile.
#[derive(Debug, Clone)]
pub struct DataSpec {
    pub client: Option<String>,
    pub server: Option<String>,
}

/// One install processor of the newer schema generations.
#[derive(Debug, Clone)]
pub struct ProcessorSpec {
    pub jar: Option<String>,
    pub classpath: Option<Vec<String>>,
    pub args: Option<Vec<String>>,
    pub outputs: Option<Vec<(String, String)>>,
    pub sides: Option<Vec<String>>,
}

/// Generation 1.5: spec and processors at top level, arbitrary data, no
/// install section. Known from exactly one published build.
#[derive(Debug)]
pub struct ForgeInstallerProfileV1_5 {
    pub comment: Option<Vec<String>>,
    pub spec: Option<i32>,
    pub profile: Option<String>,
    pub version: Option<String>,
    pub icon: Option<String>,
    pub json: Option<String>,
    pub path: Option<GradleSpecifier>,
    pub logo: Option<String>,
    pub minecraft: Option<String>,
    pub welcome: Option<String>,
    pub data: Option<JsonValue>,
    pub processors: Option<Vec<ProcessorSpec>>,
    pub libraries: Option<Vec<MojangLibrary>>,
    pub mirror_list: Option<String>,
}

/// Generation 2: data as a map of client/server strings.
#[derive(Debug)]
pub struct ForgeInstallerProfileV2 {
    pub comment: Option<Vec<String>>,
    pub spec: Option<i32>,
    pub profile: Option<String>,
    pub version: Option<String>,
    pub icon: Option<String>,
    pub json: Option<String>,
    pub path: Option<GradleSpecifier>,
    pub logo: Option<String>,
    pub minecraft: Option<String>,
    pub welcome: Option<String>,
    pub data: Option<Vec<(String, DataSpec)>>,
    pub processors: Option<Vec<ProcessorSpec>>,
    pub libraries: Option<Vec<MojangLibrary>>,
    pub mirror_list: Option<String>,
    pub server_jar_path: Option<String>,
}

/// Which schema generation a payload resolved as.
#[derive(Debug, Clone, Copy, PartialEq, Eq, Structural)]
pub enum ProfileGeneration {
    Gen1,
    Gen2,
    Gen15,
}

/// `key` present as a string field of the object `v`.
pub open spec fn spec_field_is_string(v: JsonValue, key: Seq<char>) -> bool {
    match spec_get(v, key) {
        Some(w) => w is Str,
        None => false,
    }
}

/// `key` present as a string that reads as an artifact coordinate.
pub open spec fn spec_field_is_coord(v: JsonValue, key: Seq<char>) -> bool {
    match spec_get(v, key) {
        Some(w) => w matches JsonValue::Str { s } && spec_parse_coord(s@) is Some,
        None => false,
    }
}

/// The required fields of a generation-1 install section: the descriptive
/// strings, and a path that is an artifact coordinate.
pub open spec fn spec_valid_install_section(v: JsonValue) -> bool {
    &&& v is Obj
    &&& spec_field_is_string(v, "profileName"@)
    &&& spec_field_is_string(v, "target"@)
    &&& spec_field_is_coord(v, "path"@)
    &&& spec_field_is_string(v, "version"@)
    &&& spec_field_is_string(v, "filePath"@)
    &&& spec_field_is_string(v, "welcome"@)
    &&& spec_field_is_string(v, "minecraft"@)
    &&& spec_field_is_string(v, "logo"@)
    &&& spec_field_is_string(v, "mirrorList"@)
}

/// A version-info payload: an object whose minimum-launcher-version, when
/// present, is an integer within the supported ceiling.
pub open spec fn spec_valid_version_info(v: JsonValue, max: int) -> bool {
    &&& v is Obj
    &&& match spec_get(v, "minimumLauncherVersion"@) {
        Some(w) => w matches JsonValue::Int { i } && i <= max,
        None => true,
    }
}

/// Generation 1: both a valid nested install section and a version info.
pub open spec fn spec_validates_gen1(v: JsonValue) -> bool {
    &&& match spec_get(v, "install"@) {
        Some(w) => spec_valid_install_section(w),
        None => false,
    }
    &&& match spec_get(v, "versionInfo"@) {
        Some(w) => spec_valid_version_info(w, MAX_MOJANG_SUPPORTED_VERSION as int),
        None => false,
    }
}

/// One member of a generation-2 data map: an object whose client and
/// server fields, when present, are strings.
pub open spec fn spec_data_entry_ok(v: JsonValue) -> bool {
    &&& v is Obj
    &&& match spec_get(v, "client"@) {
        Some(w) => w is Str,
        None => true,
    }
    &&& match spec_get(v, "server"@) {
        Some(w) => w is Str,
        None => true,
    }
}

/// Generation 2: a data map whose members are client/server string pairs.
pub open spec fn spec_validates_gen2(v: JsonValue) -> bool {
    match spec_get(v, "data"@) {
        Some(d) => d matches JsonValue::Obj { fields } && forall|i: int|
            0 <= i < fields@.len() ==> spec_data_entry_ok((#[trigger] fields@[i]).1),
        None => false,
    }
}

/// Generation 1.5: data of any shape, with processors and libraries as
/// top-level arrays.
pub open spec fn spec_validates_gen15(v: JsonValue) -> bool {
    &&& spec_get(v, "data"@) is Some
    &&& match spec_get(v, "processors"@) {
        Some(w) => w is Arr,
        None => false,
    }
    &&& match spec_get(v, "libraries"@) {
        Some(w) => w is Arr,
        None => false,
    }
}

/// The ordered fallback: generation 1, then 2, then 1.5; trying stops at
/// the first match.
pub open spec fn spec_resolve_profile(v: JsonValue) -> Option<ProfileGeneration> {
    if spec_validates_gen1(v) {
        Some(ProfileGeneration::Gen1)
    } else if spec_validates_gen2(v) {
        Some(ProfileGeneration::Gen2)
    } else if spec_validates_gen15(v) {
        Some(ProfileGeneration::Gen15)
    } else {
        None
    }
}

fn field_is_string(v: &JsonValue, key: &str) -> (r: bool)
    ensures
        r == spec_field_is_string(*v, key@),
{
    match crate::jsonval::get(v, key) {
        Some(w) => matches!(w, JsonValue::Str { .. }),
        None => false,
    }
}

fn field_is_coord(v: &JsonValue, key: &str) -> (r: bool)
    ensures
        r == spec_field_is_coord(*v, key@),
{
    match crate::jsonval::get(v, key) {
        Some(w) => match w {
            JsonValue::Str { s } => GradleSpecifier::parse(s.as_str()).is_ok(),
            _ => false,
        },
        None => false,
    }
}

/// Structural validation against generation 1.
pub fn validates_gen1(v: &JsonValue) -> (r: bool)
    ensures
        r == spec_validates_gen1(*v),
{
    let install_ok = match crate::jsonval::get(v, "install") {
        Some(w) => {
            let is_obj = matches!(w, JsonValue::Obj { .. });
            is_obj && field_is_string(w, "profileName") && field_is_string(w, "target")
                && field_is_coord(w, "path") && field_is_string(w, "version") && field_is_string(
                w,
                "filePath",
            ) && field_is_string(w, "welcome") && field_is_string(w, "minecraft")
                && field_is_string(w, "logo") && field_is_string(w, "mirrorList")
        },
        None => false,
    };
    if !install_ok {
        return false;
    }
    match crate::jsonval::get(v, "versionInfo") {
        Some(w) => {
            let is_obj = matches!(w, JsonValue::Obj { .. });
            is_obj && match crate::jsonval::get(w, "minimumLauncherVersion") {
                Some(mv) => match mv {
                    JsonValue::Int { i } => *i <= MAX_MOJANG_SUPPORTED_VERSION as i64,
                    _ => false,
                },
                None => true,
            }
        },
        None => false,
    }
}

/// Structural validation against generation 2.
pub fn validates_gen2(v: &JsonValue) -> (r: bool)
    ensures
        r == spec_validates_gen2(*v),
{
    let d = match crate::jsonval::get(v, "data") {
        Some(d) => d,
        None => {
            return false;
        },
    };
    let fields = match d {
        JsonValue::Obj { fields } => fields,
        _ => {
            return false;
        },
    };
    let n = fields.len();
    let mut i: usize = 0;
    while i < n
        invariant
            n == fields@.len(),
            0 <= i <= n,
            spec_get(*v, "data"@) == Some(JsonValue::Obj { fields: *fields }),
            forall|k: int| 0 <= k < i ==> spec_data_entry_ok((#[trigger] fields@[k]).1),
        decreases n - i,
    {
        let entry = &fields[i].1;
        if !matches!(entry, JsonValue::Obj { .. }) {
            proof {
                assert(!spec_data_entry_ok(fields@[i as int].1));
                let dv = spec_get(*v, "data"@)->0;
                assert(dv == JsonValue::Obj { fields: *fields });
                assert(exists|k: int|
                    0 <= k < dv->fields@.len() && !spec_data_entry_ok(
                        (#[trigger] dv->fields@[k]).1,
                    )) by {
                    assert(dv->fields@[i as int] == fields@[i as int]);
                    assert(!spec_data_entry_ok(dv->fields@[i as int].1));
                }
                assert(!spec_validates_gen2(*v));
            }
            return false;
        }
        let client_ok = match crate::jsonval::get(entry, "client") {
            Some(w) => matches!(w, JsonValue::Str { .. }),
            None => true,
        };
        let server_ok = match crate::jsonval::get(entry, "server") {
            Some(w) => matches!(w, JsonValue::Str { .. }),
            None => true,
        };
        if !client_ok || !server_ok {
            proof {
                assert(!spec_data_entry_ok(fields@[i as int].1));
                let dv = spec_get(*v, "data"@)->0;
                assert(dv == JsonValue::Obj { fields: *fields });
                assert(exists|k: int|
                    0 <= k < dv->fields@.len() && !spec_data_entry_ok(
                        (#[trigger] dv->fields@[k]).1,
                    )) by {
                    assert(dv->fields@[i as int] == fields@[i as int]);
                    assert(!spec_data_entry_ok(dv->fields@[i as int].1));
                }
                assert(!spec_validates_gen2(*v));
            }
            return false;
        }
        i += 1;
    }
    true
}

/// Structural validation against generation 1.5.
pub fn validates_gen15(v: &JsonValue) -> (r: bool)
    ensures
        r == spec_validates_gen15(*v),
{
    let data_ok = crate::jsonval::get(v, "data").is_some();
    let processors_ok = match crate::jsonval::get(v, "processors") {
        Some(w) => matches!(w, JsonValue::Arr { .. }),
        None => false,
    };
    let libraries_ok = match crate::jsonval::get(v, "libraries") {
        Some(w) => matches!(w, JsonValue::Arr { .. }),
        None => false,
    };
    data_ok && processors_ok && libraries_ok
}

/// Resolve one install-profile payload against the ordered schema
/// generations. When none validates, a supported build is a hard fault and
/// a legacy build is skipped (`Ok(None)`).
pub fn resolve_installer_profile(v: &JsonValue, supported: bool) -> (r: Result<
    Option<ProfileGeneration>,
    MetaError,
>)
    ensures
        match r {
            Ok(g) => g == spec_resolve_profile(*v) && (g is None ==> !supported),
            Err(e) => spec_resolve_profile(*v) is None && supported && e
                == MetaError::UnparseableInstallerProfile,
        },
{
    if validates_gen1(v) {
        Ok(Some(ProfileGeneration::Gen1))
    } else if validates_gen2(v) {
        Ok(Some(ProfileGeneration::Gen2))
    } else if validates_gen15(v) {
        Ok(Some(ProfileGeneration::Gen15))
    } else if supported {
        Err(MetaError::UnparseableInstallerProfile)
    } else {
        Ok(None)
    }
}

/// Fallback precedence: a payload structurally valid for generation 1
/// resolves as generation 1, even when it also satisfies generation 1.5's
/// looser shape.
pub proof fn lemma_gen1_precedence(v: JsonValue)
    requires
        spec_validates_gen1(v),
        spec_validates_gen15(v),
    ensures
        spec_resolve_profile(v) == Some(ProfileGeneration::Gen1),
{
}

} // verus!
