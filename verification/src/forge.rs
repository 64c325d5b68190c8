//! The loader platform's build model and the artifact-selection policy:
//! which file of a build is authoritative, and when a build counts as
//! supported.
use vstd::prelude::*;

use crate::strutil::{
    i32_to_string, lemma_split_len, parse_digits_i32, replace_first, spec_all_digits,
    spec_digits_value, spec_i32_to_string, spec_replace_first, spec_split, split_str, str_eq,
};
use crate::MetaError;

verus! {

/// One post-download library of the legacy loader era: file name, checksum
/// text, and whether the file is unpacked after download.
#[derive(Debug, Clone)]
pub struct FMLLib(pub String, pub String, pub bool);

/// One file of a build: classifier, normalized 32-character hash, extension.
#[derive(Debug)]
pub struct ForgeFile {
    pub classifier: String,
    pub hash: String,
    pub extension: String,
}

impl Clone for ForgeFile {
    fn clone(&self) -> (r: Self)
        ensures
            r == *self,
    {
        ForgeFile {
            classifier: self.classifier.clone(),
            hash: self.hash.clone(),
            extension: self.extension.clone(),
        }
    }
}

/// `forge-{long_version}-{classifier}.{extension}`.
pub open spec fn spec_forge_file_name(f: ForgeFile, long_version: Seq<char>) -> Seq<char> {
    "forge-"@ + long_version + seq!['-'] + f.classifier@ + seq!['.'] + f.extension@
}

/// The upstream repository URL of one build file.
pub open spec fn spec_forge_file_url(f: ForgeFile, long_version: Seq<char>) -> Seq<char> {
    "https://files.minecraftforge.net/maven/net/minecraftforge/forge/"@ + long_version + seq!['/']
        + spec_forge_file_name(f, long_version)
}

impl ForgeFile {
    /// The file name of this file for the given long version.
    pub fn file_name(&self, long_version: &str) -> (r: String)
        ensures
            r@ == spec_forge_file_name(*self, long_version@),
    {
        let mut out = "forge-".to_owned();
        out.append(long_version);
        out.push('-');
        out.append(self.classifier.as_str());
        out.push('.');
        out.append(self.extension.as_str());
        proof {
            assert(out@ =~= spec_forge_file_name(*self, long_version@));
        }
        out
    }

    /// The download URL of this file for the given long version.
    pub fn url(&self, long_version: &str) -> (r: String)
        ensures
            r@ == spec_forge_file_url(*self, long_version@),
    {
        let mut out = "https://files.minecraftforge.net/maven/net/minecraftforge/forge/".to_owned();
        out.append(long_version);
        out.push('/');
        let name = self.file_name(long_version);
        let r = out.concat(name.as_str());
        proof {
            assert(r@ =~= spec_forge_file_url(*self, long_version@));
        }
        r
    }
}

/// One build of the loader, as the derived index stores it.
#[derive(Debug)]
pub struct ForgeEntry {
    pub long_version: String,
    pub mc_version: String,
    pub version: String,
    pub build: i32,
    pub branch: Option<String>,
    pub latest: Option<bool>,
    pub recommended: Option<bool>,
    pub files: Option<Vec<(String, ForgeFile)>>,
}

/// Per-platform-version summary of the derived index.
#[derive(Debug)]
pub struct ForgeMCVersionInfo {
    pub latest: Option<String>,
    pub recommended: Option<String>,
    pub versions: Option<Vec<String>>,
}

/// The whole derived index: per-platform-version summaries plus every build
/// keyed by its long version.
#[derive(Debug)]
pub struct DerivedForgeIndex {
    pub mc_versions: Option<Vec<(String, ForgeMCVersionInfo)>>,
    pub versions: Option<Vec<(String, ForgeEntry)>>,
}

/// Hashes and size of one downloaded installer.
#[derive(Debug, Clone)]
pub struct InstallerInfo {
    pub sha1_hash: Option<String>,
    pub sha256_hash: Option<String>,
    pub size: Option<u64>,
}

/// The first file in `files` whose classifier key is `key` and whose
/// extension is `ext1` or `ext2`.
pub open spec fn spec_find_file(
    files: Seq<(String, ForgeFile)>,
    key: Seq<char>,
    ext1: Seq<char>,
    ext2: Seq<char>,
) -> Option<ForgeFile>
    decreases files.len(),
{
    if files.len() == 0 {
        None
    } else if files[0].0@ == key && (files[0].1.extension@ == ext1 || files[0].1.extension@
        == ext2) {
        Some(files[0].1)
    } else {
        spec_find_file(files.subrange(1, files.len() as int), key, ext1, ext2)
    }
}

/// Scan for the first file with the given classifier key and one of two
/// extensions.
fn find_file<'a>(
    files: &'a Vec<(String, ForgeFile)>,
    key: &str,
    ext1: &str,
    ext2: &str,
) -> (r: Option<&'a ForgeFile>)
    ensures
        match r {
            Some(f) => spec_find_file(files@, key@, ext1@, ext2@) == Some(*f),
            None => spec_find_file(files@, key@, ext1@, ext2@) is None,
        },
{
    let n = files.len();
    let mut i: usize = 0;
    proof {
        assert(files@.subrange(0, n as int) =~= files@);
    }
    while i < n
        invariant
            n == files@.len(),
            0 <= i <= n,
            spec_find_file(files@, key@, ext1@, ext2@) == spec_find_file(
                files@.subrange(i as int, n as int),
                key@,
                ext1@,
                ext2@,
            ),
        decreases n - i,
    {
        proof {
            assert(files@.subrange(i as int, n as int).subrange(1, (n - i) as int) =~= files@
                .subrange(i as int + 1, n as int));
        }
        if str_eq(files[i].0.as_str(), key) && (str_eq(files[i].1.extension.as_str(), ext1)
            || str_eq(files[i].1.extension.as_str(), ext2)) {
            return Some(&files[i].1);
        }
        i += 1;
    }
    proof {
        assert(files@.subrange(n as int, n as int) =~= Seq::<(String, ForgeFile)>::empty());
    }
    None
}

/// One build with its authoritative artifacts resolved.
#[derive(Debug)]
pub struct ForgeVersion {
    pub build: i32,
    pub raw_version: String,
    pub mc_version: String,
    pub mc_version_sane: String,
    pub branch: Option<String>,
    pub installer_file_name: Option<String>,
    pub installer_url: Option<String>,
    pub universal_file_name: Option<String>,
    pub universal_url: Option<String>,
    pub changelog_url: Option<String>,
    pub long_version: String,
}

/// The long version text: `mc-version`, with the branch appended when the
/// build has one.
pub open spec fn spec_long_version(
    mc: Seq<char>,
    version: Seq<char>,
    branch: Option<Seq<char>>,
) -> Seq<char> {
    match branch {
        Some(b) => mc + seq!['-'] + version + seq!['-'] + b,
        None => mc + seq!['-'] + version,
    }
}

/// The universal-or-client artifact: prefer the `universal` classifier with
/// extension `jar` or `zip`, fall back to `client` with the same extensions.
pub open spec fn spec_universal_file(files: Seq<(String, ForgeFile)>) -> Option<ForgeFile> {
    match spec_find_file(files, "universal"@, "jar"@, "zip"@) {
        Some(f) => Some(f),
        None => spec_find_file(files, "client"@, "jar"@, "zip"@),
    }
}

impl ForgeVersion {
    /// Resolve one raw index entry into its artifact selection: installer
    /// (`installer` classifier, `jar`), universal-or-client, and changelog
    /// (`changelog` classifier, `txt`), each with name and URL derived from
    /// the long version.
    pub fn from_entry(entry: ForgeEntry) -> (r: ForgeVersion)
        ensures
            r.build == entry.build,
            r.raw_version == entry.version,
            r.mc_version == entry.mc_version,
            r.mc_version_sane@ == spec_replace_first(entry.mc_version@, "_pre"@, "-pre"@),
            r.branch == entry.branch,
            r.long_version@ == spec_long_version(
                entry.mc_version@,
                entry.version@,
                match entry.branch {
                    Some(b) => Some(b@),
                    None => None,
                },
            ),
            ({
                let files = match entry.files {
                    Some(fs) => fs@,
                    None => Seq::<(String, ForgeFile)>::empty(),
                };
                &&& match spec_find_file(files, "installer"@, "jar"@, "jar"@) {
                    Some(f) => {
                        &&& r.installer_file_name matches Some(n)
                        &&& n@ == spec_forge_file_name(f, r.long_version@)
                        &&& r.installer_url matches Some(u)
                        &&& u@ == spec_forge_file_url(f, r.long_version@)
                    },
                    None => r.installer_file_name is None && r.installer_url is None,
                }
                &&& match spec_universal_file(files) {
                    Some(f) => {
                        &&& r.universal_file_name matches Some(n)
                        &&& n@ == spec_forge_file_name(f, r.long_version@)
                        &&& r.universal_url matches Some(u)
                        &&& u@ == spec_forge_file_url(f, r.long_version@)
                    },
                    None => r.universal_file_name is None && r.universal_url is None,
                }
                &&& match spec_find_file(files, "changelog"@, "txt"@, "txt"@) {
                    Some(f) => {
                        &&& r.changelog_url matches Some(u)
                        &&& u@ == spec_forge_file_url(f, r.long_version@)
                    },
                    None => r.changelog_url is None,
                }
            }),
    {
        let mc_version_sane = replace_first(entry.mc_version.as_str(), "_pre", "-pre");
        let mut long_version = entry.mc_version.clone();
        long_version.push('-');
        long_version.append(entry.version.as_str());
        if let Some(b) = &entry.branch {
            long_version.push('-');
            long_version.append(b.as_str());
        }
        proof {
            assert(long_version@ =~= spec_long_version(
                entry.mc_version@,
                entry.version@,
                match entry.branch {
                    Some(b) => Some(b@),
                    None => None,
                },
            ));
        }

        let mut installer_file_name: Option<String> = None;
        let mut installer_url: Option<String> = None;
        let mut universal_file_name: Option<String> = None;
        let mut universal_url: Option<String> = None;
        let mut changelog_url: Option<String> = None;

        if let Some(files) = &entry.files {
            if let Some(f) = find_file(files, "installer", "jar", "jar") {
                installer_file_name = Some(f.file_name(long_version.as_str()));
                installer_url = Some(f.url(long_version.as_str()));
            }
            let universal = match find_file(files, "universal", "jar", "zip") {
                Some(f) => Some(f),
                None => find_file(files, "client", "jar", "zip"),
            };
            if let Some(f) = universal {
                universal_file_name = Some(f.file_name(long_version.as_str()));
                universal_url = Some(f.url(long_version.as_str()));
            }
            if let Some(f) = find_file(files, "changelog", "txt", "txt") {
                changelog_url = Some(f.url(long_version.as_str()));
            }
        }

        ForgeVersion {
            build: entry.build,
            raw_version: entry.version,
            mc_version: entry.mc_version,
            mc_version_sane,
            branch: entry.branch,
            installer_file_name,
            installer_url,
            universal_file_name,
            universal_url,
            changelog_url,
            long_version,
        }
    }

    /// The display name of the build.
    pub fn name(&self) -> (r: String)
        ensures
            r@ == "Forge "@ + spec_i32_to_string(self.build as int),
    {
        let mut out = "Forge ".to_owned();
        let digits = i32_to_string(self.build);
        let r = out.concat(digits.as_str());
        proof {
            assert(r@ =~= "Forge "@ + spec_i32_to_string(self.build as int));
        }
        r
    }

    /// The installer artifact is used exactly when one exists and the
    /// platform version is not `1.5.2`, whose era lacks installer support.
    pub fn uses_installer(&self) -> (r: bool)
        ensures
            r == (self.installer_url is Some && self.mc_version@ != "1.5.2"@),
    {
        if self.installer_url.is_none() {
            return false;
        }
        if str_eq(self.mc_version.as_str(), "1.5.2") {
            return false;
        }
        true
    }

    /// The chosen file name: the installer's when the installer is used,
    /// else the universal-or-client one.
    pub fn file_name(&self) -> (r: Option<String>)
        ensures
            r == if self.installer_url is Some && self.mc_version@ != "1.5.2"@ {
                self.installer_file_name
            } else {
                self.universal_file_name
            },
    {
        if self.uses_installer() {
            match &self.installer_file_name {
                Some(s) => Some(s.clone()),
                None => None,
            }
        } else {
            match &self.universal_file_name {
                Some(s) => Some(s.clone()),
                None => None,
            }
        }
    }

    /// The chosen download URL, under the same policy as `file_name`.
    pub fn url(&self) -> (r: Option<String>)
        ensures
            r == if self.installer_url is Some && self.mc_version@ != "1.5.2"@ {
                self.installer_url
            } else {
                self.universal_url
            },
    {
        if self.uses_installer() {
            match &self.installer_url {
                Some(s) => Some(s.clone()),
                None => None,
            }
        } else {
            match &self.universal_url {
                Some(s) => Some(s.clone()),
                None => None,
            }
        }
    }

    /// Whether this version has a chosen URL.
    pub open spec fn spec_has_url(&self) -> bool {
        if self.installer_url is Some && self.mc_version@ != "1.5.2"@ {
            self.installer_url is Some
        } else {
            self.universal_url is Some
        }
    }

    /// A build is supported when it has a chosen URL and the leading
    /// dot-separated token of its raw version is a (decimal) integer.
    pub fn is_supported(&self) -> (r: bool)
        ensures
            r == (self.spec_has_url() && spec_all_digits(spec_split(self.raw_version@, '.')[0])
                && spec_digits_value(spec_split(self.raw_version@, '.')[0]) <= i32::MAX),
    {
        if self.url().is_none() {
            return false;
        }
        proof {
            lemma_split_len(self.raw_version@, '.');
        }
        let version_elements = split_str(self.raw_version.as_str(), '.');
        let major_version = &version_elements[0];
        parse_digits_i32(major_version.as_str()).is_some()
    }
}

} // verus!
