//! The fabric loader's installer-metadata model, and the maven URL
//! derivation its fetcher uses.
use vstd::prelude::*;

use crate::jsonval::JsonValue;
use crate::polymc::PolyMCLibrary;
use crate::strutil::{
    lemma_join_push, lemma_split_len, replace_char, spec_join, spec_replace, spec_split, split_str,
};

verus! {

#[derive(Debug, Clone)]
pub struct FabricInstallerArguments {
    pub client: Option<Vec<String>>,
    pub common: Option<Vec<String>>,
    pub server: Option<Vec<String>>,
}

#[derive(Debug, Clone)]
pub struct FabricInstallerLaunchWrapper {
    pub tweakers: FabricInstallerArguments,
}

#[derive(Debug, Clone)]
pub struct FabricInstallerLibraries {
    pub client: Option<Vec<PolyMCLibrary>>,
    pub common: Option<Vec<PolyMCLibrary>>,
    pub server: Option<Vec<PolyMCLibrary>>,
}

#[derive(Debug)]
pub struct FabricInstallerDataV1 {
    pub version: i32,
    pub libraries: FabricInstallerLibraries,
    pub main_class: JsonValue,
    pub arguments: Option<FabricInstallerArguments>,
    pub launch_wrapper: Option<FabricInstallerLaunchWrapper>,
}

/// Hashes, size and newest member time of one downloaded jar.
#[derive(Debug, Clone)]
pub struct FabricJarInfo {
    pub release_time: Option<String>,
    pub size: Option<u64>,
    pub sha256: Option<String>,
    pub sha1: Option<String>,
}

/// The first three colon-separated pieces of a maven key, the third taking
/// everything after the second colon.
pub open spec fn spec_maven_parts(key: Seq<char>) -> (Seq<char>, Seq<char>, Seq<char>) {
    let parts = spec_split(key, ':');
    (
        parts[0],
        parts[1],
        spec_join(parts.subrange(2, parts.len() as int), ':'),
    )
}

/// The repository URL of one maven artifact:
/// `{server}{group as path}/{artifact}/{version}/{artifact}-{version}{ext}`.
pub open spec fn spec_maven_url(
    key: Seq<char>,
    server: Seq<char>,
    ext: Seq<char>,
) -> Seq<char> {
    let parts = spec_maven_parts(key);
    server + spec_replace(parts.0, '.', '/') + seq!['/'] + parts.1 + seq!['/'] + parts.2
        + seq!['/'] + parts.1 + seq!['-'] + parts.2 + ext
}

/// Derive the repository URL of one maven key. The key must have at least
/// two colons, as `group:artifact:version` coordinates do.
pub fn get_maven_url(maven_key: &str, server: &str, ext: &str) -> (r: String)
    requires
        spec_split(maven_key@, ':').len() >= 3,
    ensures
        r@ == spec_maven_url(maven_key@, server@, ext@),
{
    proof {
        lemma_split_len(maven_key@, ':');
    }
    let parts = split_str(maven_key, ':');
    let np = parts.len();
    let ghost parts_view = spec_split(maven_key@, ':');

    // rebuild the version piece: everything after the second colon
    let mut ver = parts[2].clone();
    let mut k: usize = 3;
    proof {
        assert(parts_view.subrange(2, 3) =~= seq![parts_view[2]]);
        assert(ver@ == spec_join(parts_view.subrange(2, 3), ':'));
    }
    while k < np
        invariant
            np == parts_view.len(),
            3 <= k <= np,
            parts@.len() == np,
            forall|i: int| 0 <= i < np ==> (#[trigger] parts@[i])@ == parts_view[i],
            ver@ == spec_join(parts_view.subrange(2, k as int), ':'),
        decreases np - k,
    {
        proof {
            lemma_join_push(parts_view.subrange(2, k as int), parts_view[k as int], ':');
            assert(parts_view.subrange(2, k as int).push(parts_view[k as int]) =~= parts_view
                .subrange(2, k as int + 1));
        }
        ver.push(':');
        ver.append(parts[k].as_str());
        k += 1;
    }
    proof {
        assert(parts_view.subrange(2, np as int) =~= parts_view.subrange(
            2,
            parts_view.len() as int,
        ));
    }

    let mut out = server.to_owned();
    let group_path = replace_char(parts[0].as_str(), '.', '/');
    out.append(group_path.as_str());
    out.push('/');
    out.append(parts[1].as_str());
    out.push('/');
    out.append(ver.as_str());
    out.push('/');
    out.append(parts[1].as_str());
    out.push('-');
    out.append(ver.as_str());
    out.append(ext);
    proof {
        assert(out@ =~= spec_maven_url(maven_key@, server@, ext@));
    }
    out
}

} // verus!
