//! The platform resolver: promotion and build-string grammars, per-build
//! file-manifest normalization, and the derived-index builder with its
//! deterministic latest/recommended selection.
use vstd::prelude::*;

use crate::assoc::{assoc_get, assoc_insert, spec_assoc_get, spec_assoc_insert};
use crate::forge::{DerivedForgeIndex, ForgeEntry, ForgeFile, ForgeMCVersionInfo};
use crate::jsonval::{spec_get, JsonValue};
use crate::strutil::{
    is_alnum, is_digit, lemma_split_len, parse_digits_i32, spec_all_digits, spec_digits_value,
    spec_split, spec_strip_non_alnum, split_str, str_eq, strip_non_alnum,
};
use crate::MetaError;

verus! {

/// How one promotion key reads.
#[derive(Debug, Clone, Copy, PartialEq, Eq, Structural)]
pub enum PromoParse {
    /// Not of the form `{mc}-{kind}[-{branch}]` with non-empty segments.
    Malformed,
    /// Carries a branch qualifier.
    Branch,
    /// The `latest` kind, always recomputed locally and never trusted.
    Latest,
    /// The `recommended` kind.
    Recommended,
    /// A promotion kind this engine does not know.
    Unknown,
}

/// Read one promotion key: `{mc}-{kind}[-{branch}]`, dash-separated, every
/// segment non-empty.
pub open spec fn spec_promo_parse(key: Seq<char>) -> PromoParse {
    let parts = spec_split(key, '-');
    if parts.len() != 2 && parts.len() != 3 {
        PromoParse::Malformed
    } else if parts[0].len() == 0 || parts[1].len() == 0 || (parts.len() == 3 && parts[2].len()
        == 0) {
        PromoParse::Malformed
    } else if parts.len() == 3 {
        PromoParse::Branch
    } else if parts[1] == "recommended"@ {
        PromoParse::Recommended
    } else if parts[1] == "latest"@ {
        PromoParse::Latest
    } else {
        PromoParse::Unknown
    }
}

/// No promotion key carries an unknown kind.
pub open spec fn spec_promos_ok(promos: Seq<(String, String)>) -> bool {
    forall|i: int|
        0 <= i < promos.len() ==> spec_promo_parse((#[trigger] promos[i]).0@)
            != PromoParse::Unknown
}

/// The short versions named by `recommended` promotion keys, in order; a
/// duplicate key simply contributes twice, so the last write wins on lookup.
pub open spec fn spec_recommended_set(promos: Seq<(String, String)>) -> Seq<Seq<char>>
    decreases promos.len(),
{
    if promos.len() == 0 {
        Seq::<Seq<char>>::empty()
    } else {
        let front = spec_recommended_set(promos.drop_last());
        if spec_promo_parse(promos.last().0@) is Recommended {
            front.push(promos.last().1@)
        } else {
            front
        }
    }
}

/// Classify one promotion key.
fn promo_parse(key: &str) -> (r: PromoParse)
    ensures
        r == spec_promo_parse(key@),
{
    proof {
        lemma_split_len(key@, '-');
    }
    let parts = split_str(key, '-');
    if parts.len() != 2 && parts.len() != 3 {
        return PromoParse::Malformed;
    }
    if parts[0].unicode_len() == 0 || parts[1].unicode_len() == 0 || (parts.len() == 3
        && parts[2].unicode_len() == 0) {
        return PromoParse::Malformed;
    }
    if parts.len() == 3 {
        return PromoParse::Branch;
    }
    if str_eq(parts[1].as_str(), "recommended") {
        return PromoParse::Recommended;
    }
    if str_eq(parts[1].as_str(), "latest") {
        return PromoParse::Latest;
    }
    PromoParse::Unknown
}

/// Process the promotion map: collect the short versions under
/// `recommended` keys, skip malformed, branch-qualified and `latest` keys,
/// and abort on an unknown promotion kind.
pub fn collect_recommended(promos: &Vec<(String, String)>) -> (r: Result<Vec<String>, MetaError>)
    ensures
        match r {
            Ok(rec) => spec_promos_ok(promos@) && rec@.map_values(|s: String| s@)
                == spec_recommended_set(promos@),
            Err(e) => !spec_promos_ok(promos@) && e == MetaError::UnparseableMetadata,
        },
{
    let n = promos.len();
    let mut rec: Vec<String> = Vec::new();
    let mut i: usize = 0;
    proof {
        assert(promos@.subrange(0, 0) =~= Seq::<(String, String)>::empty());
        assert(rec@.map_values(|s: String| s@) =~= spec_recommended_set(promos@.subrange(0, 0)));
    }
    while i < n
        invariant
            n == promos@.len(),
            0 <= i <= n,
            forall|k: int|
                0 <= k < i ==> spec_promo_parse((#[trigger] promos@[k]).0@) != PromoParse::Unknown,
            rec@.map_values(|s: String| s@) == spec_recommended_set(promos@.subrange(0, i as int)),
        decreases n - i,
    {
        let kind = promo_parse(promos[i].0.as_str());
        proof {
            let pre = promos@.subrange(0, i as int + 1);
            assert(pre.drop_last() =~= promos@.subrange(0, i as int));
            assert(pre.last() == promos@[i as int]);
        }
        if matches!(kind, PromoParse::Unknown) {
            return Err(MetaError::UnparseableMetadata);
        }
        let ghost pre_rec = rec@;
        if matches!(kind, PromoParse::Recommended) {
            rec.push(promos[i].1.clone());
            proof {
                assert(rec@.map_values(|s: String| s@) =~= pre_rec.map_values(|s: String| s@).push(
                    promos@[i as int].1@,
                ));
            }
        }
        i += 1;
    }
    proof {
        assert(promos@.subrange(0, n as int) =~= promos@);
    }
    Ok(rec)
}

/// Whether some element of `v` reads as `s`.
pub open spec fn spec_strs_contain(v: Seq<String>, s: Seq<char>) -> bool {
    exists|i: int| 0 <= i < v.len() && (#[trigger] v[i])@ == s
}

/// One sequence of strings, seen as character sequences, contains a text
/// exactly when some element reads as that text.
pub proof fn lemma_mapped_contains(v: Seq<String>, x: Seq<char>)
    ensures
        v.map_values(|s: String| s@).contains(x) <==> spec_strs_contain(v, x),
{
    if v.map_values(|s: String| s@).contains(x) {
        let k = choose|k: int| 0 <= k < v.len() && #[trigger] v[k] == v[k] && (v.map_values(
            |s: String| s@,
        ))[k] == x;
        assert(v[k]@ == x);
    }
    if spec_strs_contain(v, x) {
        let k = choose|k: int| 0 <= k < v.len() && (#[trigger] v[k])@ == x;
        assert(v.map_values(|s: String| s@)[k] == x);
    }
}

/// Linear membership scan.
pub fn contains_string(v: &Vec<String>, s: &str) -> (r: bool)
    ensures
        r == spec_strs_contain(v@, s@),
{
    let n = v.len();
    let mut i: usize = 0;
    while i < n
        invariant
            n == v@.len(),
            0 <= i <= n,
            forall|k: int| 0 <= k < i ==> (#[trigger] v@[k])@ != s@,
        decreases n - i,
    {
        if str_eq(v[i].as_str(), s) {
            return true;
        }
        i += 1;
    }
    false
}

/// Characters allowed in the platform-version token of a build string.
pub open spec fn spec_mc_char(c: char) -> bool {
    is_alnum(c) || c == '_' || c == '.'
}

/// Characters allowed in a branch token.
pub open spec fn spec_branch_char(c: char) -> bool {
    is_alnum(c) || c == '.'
}

/// Characters allowed in the dotted version token.
pub open spec fn spec_ver_char(c: char) -> bool {
    is_digit(c) || c == '.'
}

pub open spec fn spec_all_mc_chars(s: Seq<char>) -> bool {
    forall|i: int| 0 <= i < s.len() ==> spec_mc_char(#[trigger] s[i])
}

pub open spec fn spec_all_branch_chars(s: Seq<char>) -> bool {
    forall|i: int| 0 <= i < s.len() ==> spec_branch_char(#[trigger] s[i])
}

/// The version token: digits and dots, at least one dot, and the part
/// after the last dot a non-empty run of digits (the build number).
pub open spec fn spec_ver_ok(v: Seq<char>) -> bool {
    let toks = spec_split(v, '.');
    &&& forall|i: int| 0 <= i < v.len() ==> spec_ver_char(#[trigger] v[i])
    &&& toks.len() >= 2
    &&& spec_all_digits(toks.last())
}

/// The pieces of one long build string.
pub struct BuildParts {
    pub mc: Seq<char>,
    pub ver: Seq<char>,
    pub build: int,
    pub branch: Option<Seq<char>>,
}

/// Read one build string: `{mc}-{version}[-{branch}]`, where the version
/// ends in `.{build}`. A build number beyond `i32` range does not parse.
pub open spec fn spec_build_parse(s: Seq<char>) -> Option<BuildParts> {
    let parts = spec_split(s, '-');
    if parts.len() != 2 && parts.len() != 3 {
        None
    } else {
        let mc = parts[0];
        let ver = parts[1];
        if mc.len() > 0 && spec_all_mc_chars(mc) && spec_ver_ok(ver) && (parts.len() == 3
            ==> parts[2].len() > 0 && spec_all_branch_chars(parts[2])) && spec_digits_value(
            spec_split(ver, '.').last(),
        ) <= i32::MAX {
            Some(
                BuildParts {
                    mc,
                    ver,
                    build: spec_digits_value(spec_split(ver, '.').last()),
                    branch: if parts.len() == 3 {
                        Some(parts[2])
                    } else {
                        None
                    },
                },
            )
        } else {
            None
        }
    }
}

/// One parsed build string, as executable data.
#[derive(Debug)]
pub struct ForgeBuildRef {
    pub mc: String,
    pub version: String,
    pub build: i32,
    pub branch: Option<String>,
}

fn all_mc_chars(s: &str) -> (r: bool)
    ensures
        r == spec_all_mc_chars(s@),
{
    let n = s.unicode_len();
    let mut i: usize = 0;
    while i < n
        invariant
            n == s@.len(),
            0 <= i <= n,
            forall|k: int| 0 <= k < i ==> spec_mc_char(#[trigger] s@[k]),
        decreases n - i,
    {
        let c = s.get_char(i);
        if !(('0' <= c && c <= '9') || ('a' <= c && c <= 'z') || ('A' <= c && c <= 'Z') || c == '_'
            || c == '.') {
            return false;
        }
        i += 1;
    }
    true
}

fn all_branch_chars(s: &str) -> (r: bool)
    ensures
        r == spec_all_branch_chars(s@),
{
    let n = s.unicode_len();
    let mut i: usize = 0;
    while i < n
        invariant
            n == s@.len(),
            0 <= i <= n,
            forall|k: int| 0 <= k < i ==> spec_branch_char(#[trigger] s@[k]),
        decreases n - i,
    {
        let c = s.get_char(i);
        if !(('0' <= c && c <= '9') || ('a' <= c && c <= 'z') || ('A' <= c && c <= 'Z')
            || c == '.') {
            return false;
        }
        i += 1;
    }
    true
}

fn all_ver_chars(s: &str) -> (r: bool)
    ensures
        r == forall|i: int| 0 <= i < s@.len() ==> spec_ver_char(#[trigger] s@[i]),
{
    let n = s.unicode_len();
    let mut i: usize = 0;
    while i < n
        invariant
            n == s@.len(),
            0 <= i <= n,
            forall|k: int| 0 <= k < i ==> spec_ver_char(#[trigger] s@[k]),
        decreases n - i,
    {
        let c = s.get_char(i);
        if !(('0' <= c && c <= '9') || c == '.') {
            return false;
        }
        i += 1;
    }
    true
}

/// Parse one long build string against the build grammar.
pub fn parse_forge_build(s: &str) -> (r: Option<ForgeBuildRef>)
    ensures
        match r {
            Some(b) => spec_build_parse(s@) matches Some(bp) && b.mc@ == bp.mc && b.version@
                == bp.ver && b.build == bp.build && (match b.branch {
                Some(br) => bp.branch == Some(br@),
                None => bp.branch is None,
            }),
            None => spec_build_parse(s@) is None,
        },
{
    proof {
        lemma_split_len(s@, '-');
    }
    let parts = split_str(s, '-');
    if parts.len() != 2 && parts.len() != 3 {
        return None;
    }
    if parts[0].unicode_len() == 0 || !all_mc_chars(parts[0].as_str()) {
        return None;
    }
    if !all_ver_chars(parts[1].as_str()) {
        return None;
    }
    proof {
        lemma_split_len(parts@[1]@, '.');
    }
    let vtoks = split_str(parts[1].as_str(), '.');
    if vtoks.len() < 2 {
        return None;
    }
    let build = match parse_digits_i32(vtoks[vtoks.len() - 1].as_str()) {
        Some(v) => v,
        None => {
            return None;
        },
    };
    if parts.len() == 3 {
        if parts[2].unicode_len() == 0 || !all_branch_chars(parts[2].as_str()) {
            return None;
        }
        Some(
            ForgeBuildRef {
                mc: parts[0].clone(),
                version: parts[1].clone(),
                build,
                branch: Some(parts[2].clone()),
            },
        )
    } else {
        Some(
            ForgeBuildRef {
                mc: parts[0].clone(),
                version: parts[1].clone(),
                build,
                branch: None,
            },
        )
    }
}

/// The mathematical content of one build file.
pub struct FileModel {
    pub classifier: Seq<char>,
    pub hash: Seq<char>,
    pub extension: Seq<char>,
}

/// The classifier-to-file list, seen mathematically.
pub open spec fn spec_files_view(v: Seq<(String, ForgeFile)>) -> Seq<(Seq<char>, FileModel)> {
    v.map_values(
        |p: (String, ForgeFile)|
            (
                p.0@,
                FileModel {
                    classifier: p.1.classifier@,
                    hash: p.1.hash@,
                    extension: p.1.extension@,
                },
            ),
    )
}

/// The chosen extension entry of one classifier: walk the extension object
/// backwards and take the first whose value is a string.
pub open spec fn spec_select_entry(fields: Seq<(String, JsonValue)>) -> Option<
    (Seq<char>, Seq<char>),
>
    decreases fields.len(),
{
    if fields.len() == 0 {
        None
    } else if fields.last().1 is Str {
        Some((fields.last().0@, fields.last().1->s@))
    } else {
        spec_select_entry(fields.drop_last())
    }
}

pub open spec fn spec_model_has(m: Seq<(Seq<char>, FileModel)>, k: Seq<char>) -> bool {
    exists|i: int| 0 <= i < m.len() && (#[trigger] m[i]).0 == k
}

/// Fold one classifiers object into the normalized file list: per
/// classifier, choose an extension entry, strip the raw hash down to its
/// alphanumeric characters, drop the classifier unless exactly 32 remain,
/// and fault on a classifier key inserted twice or an extension value that
/// is not an object.
pub open spec fn spec_manifest_fold(cls: Seq<(String, JsonValue)>) -> Result<
    Seq<(Seq<char>, FileModel)>,
    MetaError,
>
    decreases cls.len(),
{
    if cls.len() == 0 {
        Ok(Seq::<(Seq<char>, FileModel)>::empty())
    } else {
        match spec_manifest_fold(cls.drop_last()) {
            Err(e) => Err(e),
            Ok(acc) => match cls.last().1 {
                JsonValue::Obj { fields } => match spec_select_entry(fields@) {
                    None => Ok(acc),
                    Some(sel) => {
                        let h = spec_strip_non_alnum(sel.1);
                        if h.len() != 32 {
                            Ok(acc)
                        } else if spec_model_has(acc, cls.last().0@) {
                            Err(MetaError::DataIntegrityFault)
                        } else {
                            Ok(
                                acc.push(
                                    (
                                        cls.last().0@,
                                        FileModel {
                                            classifier: cls.last().0@,
                                            hash: h,
                                            extension: sel.0,
                                        },
                                    ),
                                ),
                            )
                        }
                    },
                },
                _ => Err(MetaError::UnparseableMetadata),
            },
        }
    }
}

/// What normalizing a whole per-build manifest yields: the fold of its
/// `classifiers` object, or a fault when that object is missing.
pub open spec fn spec_manifest_result(m: JsonValue) -> Result<
    Seq<(Seq<char>, FileModel)>,
    MetaError,
> {
    match spec_get(m, "classifiers"@) {
        Some(JsonValue::Obj { fields }) => spec_manifest_fold(fields@),
        _ => Err(MetaError::UnparseableMetadata),
    }
}

/// An error reached while folding a prefix settles the whole fold.
proof fn lemma_fold_err_persists(cls: Seq<(String, JsonValue)>, j: int)
    requires
        0 <= j <= cls.len(),
        spec_manifest_fold(cls.subrange(0, j)) is Err,
    ensures
        spec_manifest_fold(cls) == spec_manifest_fold(cls.subrange(0, j)),
    decreases cls.len() - j,
{
    if j == cls.len() {
        assert(cls.subrange(0, j) =~= cls);
    } else {
        assert(cls.subrange(0, j + 1).drop_last() =~= cls.subrange(0, j));
        lemma_fold_err_persists(cls, j + 1);
    }
}

/// Choose the extension entry of one classifier object.
fn select_entry(ef: &Vec<(String, JsonValue)>) -> (r: Option<(String, String)>)
    ensures
        match r {
            Some(sel) => spec_select_entry(ef@) == Some((sel.0@, sel.1@)),
            None => spec_select_entry(ef@) is None,
        },
{
    let mut j = ef.len();
    proof {
        assert(ef@.subrange(0, ef@.len() as int) =~= ef@);
    }
    while j > 0
        invariant
            0 <= j <= ef@.len(),
            spec_select_entry(ef@) == spec_select_entry(ef@.subrange(0, j as int)),
        decreases j,
    {
        let jj = j - 1;
        proof {
            assert(ef@.subrange(0, j as int).drop_last() =~= ef@.subrange(0, jj as int));
            assert(ef@.subrange(0, j as int).last() == ef@[jj as int]);
        }
        match &ef[jj].1 {
            JsonValue::Str { s } => {
                return Some((ef[jj].0.clone(), s.clone()));
            },
            _ => {},
        }
        j = jj;
    }
    proof {
        assert(ef@.subrange(0, 0) =~= Seq::<(String, JsonValue)>::empty());
    }
    None
}

/// Normalize one per-build file manifest into its classifier-to-file list.
pub fn process_file_manifest(m: &JsonValue) -> (r: Result<Vec<(String, ForgeFile)>, MetaError>)
    ensures
        match r {
            Ok(files) => spec_manifest_result(*m) == Ok::<_, MetaError>(spec_files_view(files@)),
            Err(e) => spec_manifest_result(*m) == Err::<Seq<(Seq<char>, FileModel)>, _>(e),
        },
{
    let cls = match crate::jsonval::get(m, "classifiers") {
        Some(v) => v,
        None => {
            return Err(MetaError::UnparseableMetadata);
        },
    };
    let fields = match cls {
        JsonValue::Obj { fields } => fields,
        _ => {
            return Err(MetaError::UnparseableMetadata);
        },
    };
    let n = fields.len();
    let mut out: Vec<(String, ForgeFile)> = Vec::new();
    let mut i: usize = 0;
    proof {
        assert(fields@.subrange(0, 0) =~= Seq::<(String, JsonValue)>::empty());
        assert(spec_files_view(out@) =~= Seq::<(Seq<char>, FileModel)>::empty());
    }
    while i < n
        invariant
            n == fields@.len(),
            0 <= i <= n,
            spec_manifest_fold(fields@.subrange(0, i as int)) == Ok::<_, MetaError>(
                spec_files_view(out@),
            ),
            spec_manifest_result(*m) == spec_manifest_fold(fields@),
        decreases n - i,
    {
        proof {
            assert(fields@.subrange(0, i as int + 1).drop_last() =~= fields@.subrange(0, i as int));
            assert(fields@.subrange(0, i as int + 1).last() == fields@[i as int]);
        }
        let ef = match &fields[i].1 {
            JsonValue::Obj { fields: ef } => ef,
            _ => {
                proof {
                    lemma_fold_err_persists(fields@, i as int + 1);
                }
                return Err(MetaError::UnparseableMetadata);
            },
        };
        if let Some(sel) = select_entry(ef) {
            let h = strip_non_alnum(sel.1.as_str());
            if h.as_str().unicode_len() == 32 {
                let key = fields[i].0.clone();
                proof {
                    crate::assoc::lemma_assoc_get_exists(out@, key@);
                    if spec_assoc_get(out@, key@) is Some {
                        let w = choose|w: int|
                            0 <= w < out@.len() && (#[trigger] out@[w]).0@ == key@;
                        assert(spec_files_view(out@)[w].0 == key@);
                    }
                    if spec_model_has(spec_files_view(out@), key@) {
                        let w = choose|w: int|
                            0 <= w < spec_files_view(out@).len() && (#[trigger] spec_files_view(
                                out@,
                            )[w]).0 == key@;
                        assert(out@[w].0@ == key@);
                    }
                }
                if crate::assoc::assoc_get(&out, fields[i].0.as_str()).is_some() {
                    proof {
                        lemma_fold_err_persists(fields@, i as int + 1);
                    }
                    return Err(MetaError::DataIntegrityFault);
                }
                let ghost pre = out@;
                let file = ForgeFile {
                    classifier: fields[i].0.clone(),
                    hash: h,
                    extension: sel.0,
                };
                out.push((key, file));
                proof {
                    assert(spec_files_view(out@) =~= spec_files_view(pre).push(
                        spec_files_view(out@).last(),
                    ));
                }
            }
        }
        i += 1;
    }
    proof {
        assert(fields@.subrange(0, n as int) =~= fields@);
    }
    Ok(out)
}


/// What, if anything, is wrong with one build string of one platform
/// version: grammar mismatch, platform-version mismatch, a missing
/// manifest, or a manifest that does not normalize.
pub open spec fn spec_build_error(
    mc: Seq<char>,
    lv: Seq<char>,
    manifests: Seq<(String, JsonValue)>,
) -> Option<MetaError> {
    match spec_build_parse(lv) {
        None => Some(MetaError::UnparseableMetadata),
        Some(bp) => if bp.mc != mc {
            Some(MetaError::DataIntegrityFault)
        } else {
            match spec_assoc_get(manifests, lv) {
                None => Some(MetaError::UnparseableMetadata),
                Some(mj) => match spec_manifest_result(mj) {
                    Err(e) => Some(e),
                    Ok(fm) => None,
                },
            }
        },
    }
}

/// The first fault in one ordered build list.
pub open spec fn spec_list_error(
    mc: Seq<char>,
    list: Seq<String>,
    manifests: Seq<(String, JsonValue)>,
) -> Option<MetaError>
    decreases list.len(),
{
    if list.len() == 0 {
        None
    } else {
        match spec_build_error(mc, list[0]@, manifests) {
            Some(e) => Some(e),
            None => spec_list_error(mc, list.subrange(1, list.len() as int), manifests),
        }
    }
}

/// The first fault across all platform versions, in input order.
pub open spec fn spec_lists_error(
    build_lists: Seq<(String, Vec<String>)>,
    manifests: Seq<(String, JsonValue)>,
) -> Option<MetaError>
    decreases build_lists.len(),
{
    if build_lists.len() == 0 {
        None
    } else {
        match spec_list_error(build_lists[0].0@, build_lists[0].1@, manifests) {
            Some(e) => Some(e),
            None => spec_lists_error(
                build_lists.subrange(1, build_lists.len() as int),
                manifests,
            ),
        }
    }
}

/// The long version of the last build in the list whose version token is
/// in the recommended set.
pub open spec fn spec_last_recommended(list: Seq<String>, rec: Seq<Seq<char>>) -> Option<Seq<char>>
    decreases list.len(),
{
    if list.len() == 0 {
        None
    } else {
        match spec_build_parse(list.last()@) {
            Some(bp) => if rec.contains(bp.ver) {
                Some(list.last()@)
            } else {
                spec_last_recommended(list.drop_last(), rec)
            },
            None => spec_last_recommended(list.drop_last(), rec),
        }
    }
}

/// The platform versions that own at least one build, in input order.
pub open spec fn spec_nonempty_lists(build_lists: Seq<(String, Vec<String>)>) -> Seq<
    (String, Vec<String>),
>
    decreases build_lists.len(),
{
    if build_lists.len() == 0 {
        Seq::<(String, Vec<String>)>::empty()
    } else {
        let front = spec_nonempty_lists(build_lists.drop_last());
        if build_lists.last().1@.len() > 0 {
            front.push(build_lists.last())
        } else {
            front
        }
    }
}

/// One stored index entry is the right one for its key: the key is the
/// entry's long version, the parsed fields are carried verbatim, the
/// recommendation flag reads the promotion set, the latest flag is
/// positional over the key's own build list, and the files are the
/// normalized manifest.
pub open spec fn spec_entry_ok(
    p: (String, ForgeEntry),
    rec: Seq<Seq<char>>,
    build_lists: Seq<(String, Vec<String>)>,
    manifests: Seq<(String, JsonValue)>,
) -> bool {
    let lv = p.1.long_version@;
    &&& p.0@ == lv
    &&& spec_build_parse(lv) matches Some(bp)
    &&& {
        let bp = spec_build_parse(lv)->0;
        &&& p.1.mc_version@ == bp.mc
        &&& p.1.version@ == bp.ver
        &&& p.1.build == bp.build
        &&& match p.1.branch {
            Some(b) => bp.branch == Some(b@),
            None => bp.branch is None,
        }
        &&& p.1.recommended == Some(rec.contains(bp.ver))
        &&& spec_assoc_get(build_lists, bp.mc) matches Some(list)
        &&& {
            let list = spec_assoc_get(build_lists, bp.mc)->0;
            &&& list@.len() > 0
            &&& p.1.latest == Some(lv == list@.last()@)
        }
        &&& spec_assoc_get(manifests, lv) matches Some(mj)
        &&& spec_manifest_result(spec_assoc_get(manifests, lv)->0) matches Ok(fm)
        &&& p.1.files matches Some(fs)
        &&& spec_manifest_result(spec_assoc_get(manifests, lv)->0) == Ok::<_, MetaError>(
            spec_files_view(p.1.files->0@),
        )
    }
}

/// The per-platform-version summary is right for its list: the versions in
/// input order, the latest pointer at the last append position, the
/// recommended pointer at the last recommended build.
pub open spec fn spec_mc_info_ok(
    info: ForgeMCVersionInfo,
    list: Seq<String>,
    rec: Seq<Seq<char>>,
) -> bool {
    &&& list.len() > 0
    &&& info.versions matches Some(vs)
    &&& info.versions->0@.map_values(|s: String| s@) == list.map_values(|s: String| s@)
    &&& info.latest matches Some(l)
    &&& info.latest->0@ == list.last()@
    &&& match spec_last_recommended(list, rec) {
        Some(x) => info.recommended matches Some(rr) && rr@ == x,
        None => info.recommended is None,
    }
}

/// Pairs processed so far all have an entry in the versions map.
pub open spec fn spec_covered(
    vers: Seq<(String, ForgeEntry)>,
    build_lists: Seq<(String, Vec<String>)>,
    i: int,
    j: int,
) -> bool {
    forall|a: int, b: int|
        0 <= a < build_lists.len() && 0 <= b < build_lists[a].1@.len() && (a < i || (a == i && b
            < j)) ==> spec_assoc_get(vers, (#[trigger] build_lists[a].1@[b])@) is Some
}

/// When the scan of one build finds fault `e` and the error scans have
/// been reduced to the suffixes at hand, the fault of the whole input is
/// `e`. The reductions are the loop invariants of the builder.
proof fn lemma_scan_links(
    build_lists: Seq<(String, Vec<String>)>,
    manifests: Seq<(String, JsonValue)>,
    i: int,
    j: int,
    e: MetaError,
)
    requires
        0 <= i < build_lists.len(),
        0 <= j < build_lists[i].1@.len(),
        spec_build_error(build_lists[i].0@, build_lists[i].1@[j]@, manifests) == Some(e),
        spec_list_error(build_lists[i].0@, build_lists[i].1@, manifests) == spec_list_error(
            build_lists[i].0@,
            build_lists[i].1@.subrange(j, build_lists[i].1@.len() as int),
            manifests,
        ),
        spec_lists_error(build_lists, manifests) == spec_lists_error(
            build_lists.subrange(i, build_lists.len() as int),
            manifests,
        ),
    ensures
        spec_lists_error(build_lists, manifests) == Some(e),
{
    let list = build_lists[i].1@;
    let m = list.len() as int;
    let suffix = list.subrange(j, m);
    assert(suffix[0] == list[j]);
    assert(spec_list_error(build_lists[i].0@, suffix, manifests) == Some(e));
    let outer = build_lists.subrange(i, build_lists.len() as int);
    assert(outer[0] == build_lists[i]);
    assert(spec_lists_error(outer, manifests) == Some(e));
}

/// Build the derived index: process the promotion map into the recommended
/// set, then every build list in input order, normalizing each build's file
/// manifest; the last build of each list is the latest, and the last
/// recommended build wins the recommended pointer. Platform-version keys
/// must be distinct, as keys of one JSON object are.
pub fn build_derived_index(
    promos: &Vec<(String, String)>,
    build_lists: &Vec<(String, Vec<String>)>,
    manifests: &Vec<(String, JsonValue)>,
) -> (r: Result<DerivedForgeIndex, MetaError>)
    requires
        forall|a: int, b: int|
            0 <= a < b < build_lists@.len() ==> (#[trigger] build_lists@[a]).0@
                != (#[trigger] build_lists@[b]).0@,
    ensures
        match r {
            Ok(idx) => {
                let rec = spec_recommended_set(promos@);
                let filtered = spec_nonempty_lists(build_lists@);
                &&& spec_promos_ok(promos@)
                &&& spec_lists_error(build_lists@, manifests@) is None
                &&& idx.versions matches Some(vers)
                &&& forall|k: int|
                    0 <= k < idx.versions->0@.len() ==> spec_entry_ok(
                        #[trigger] idx.versions->0@[k],
                        spec_recommended_set(promos@),
                        build_lists@,
                        manifests@,
                    )
                &&& spec_covered(
                    idx.versions->0@,
                    build_lists@,
                    build_lists@.len() as int,
                    0,
                )
                &&& idx.mc_versions matches Some(mcs)
                &&& idx.mc_versions->0@.len() == filtered.len()
                &&& forall|k: int|
                    0 <= k < filtered.len() ==> (#[trigger] idx.mc_versions->0@[k]).0@
                        == filtered[k].0@ && spec_mc_info_ok(
                        idx.mc_versions->0@[k].1,
                        filtered[k].1@,
                        spec_recommended_set(promos@),
                    )
            },
            Err(e) => {
                ||| (!spec_promos_ok(promos@) && e == MetaError::UnparseableMetadata)
                ||| (spec_promos_ok(promos@) && spec_lists_error(build_lists@, manifests@)
                    == Some(e))
            },
        },
{
    let rec = match collect_recommended(promos) {
        Ok(rr) => rr,
        Err(e) => {
            return Err(e);
        },
    };
    let ghost rec_model = spec_recommended_set(promos@);
    let n = build_lists.len();
    let mut vers: Vec<(String, ForgeEntry)> = Vec::new();
    let mut mcs: Vec<(String, ForgeMCVersionInfo)> = Vec::new();
    let mut i: usize = 0;
    proof {
        assert(build_lists@.subrange(0, n as int) =~= build_lists@);
        assert(build_lists@.subrange(0, 0) =~= Seq::<(String, Vec<String>)>::empty());
    }
    while i < n
        invariant
            n == build_lists@.len(),
            0 <= i <= n,
            spec_promos_ok(promos@),
            rec@.map_values(|s: String| s@) == rec_model,
            forall|a: int, b: int|
                0 <= a < b < build_lists@.len() ==> (#[trigger] build_lists@[a]).0@
                    != (#[trigger] build_lists@[b]).0@,
            spec_lists_error(build_lists@, manifests@) == spec_lists_error(
                build_lists@.subrange(i as int, n as int),
                manifests@,
            ),
            forall|k: int|
                0 <= k < vers@.len() ==> spec_entry_ok(
                    #[trigger] vers@[k],
                    rec_model,
                    build_lists@,
                    manifests@,
                ),
            spec_covered(vers@, build_lists@, i as int, 0),
            mcs@.len() == spec_nonempty_lists(build_lists@.subrange(0, i as int)).len(),
            forall|k: int|
                0 <= k < mcs@.len() ==> (#[trigger] mcs@[k]).0@ == spec_nonempty_lists(
                    build_lists@.subrange(0, i as int),
                )[k].0@ && spec_mc_info_ok(
                    mcs@[k].1,
                    spec_nonempty_lists(build_lists@.subrange(0, i as int))[k].1@,
                    rec_model,
                ),
        decreases n - i,
    {
        let list_len = build_lists[i].1.len();
        let ghost mc_view = build_lists@[i as int].0@;
        let ghost list_view = build_lists@[i as int].1@;
        proof {
            assert(build_lists@.subrange(i as int, n as int)[0] == build_lists@[i as int]);
            assert(build_lists@.subrange(i as int, n as int).subrange(
                1,
                (n - i) as int,
            ) =~= build_lists@.subrange(i as int + 1, n as int));
            assert(build_lists@.subrange(0, i as int + 1).drop_last() =~= build_lists@.subrange(
                0,
                i as int,
            ));
            assert(build_lists@.subrange(0, i as int + 1).last() == build_lists@[i as int]);
        }
        if list_len == 0 {
            proof {
                assert(spec_list_error(mc_view, list_view, manifests@) is None);
                assert(spec_nonempty_lists(build_lists@.subrange(0, i as int + 1))
                    =~= spec_nonempty_lists(build_lists@.subrange(0, i as int)));
                assert(spec_covered(vers@, build_lists@, i as int + 1, 0)) by {
                    assert(build_lists@[i as int].1@.len() == 0);
                }
            }
            i += 1;
            continue ;
        }
        let mut versions_list: Vec<String> = Vec::new();
        let mut recommended_lv: Option<String> = None;
        let mut j: usize = 0;
        proof {
            assert(list_view.subrange(0, 0) =~= Seq::<String>::empty());
            assert(list_view.subrange(0, list_len as int) =~= list_view);
        }
        while j < list_len
            invariant
                n == build_lists@.len(),
                0 <= i < n,
                list_len == build_lists@[i as int].1@.len(),
                mc_view == build_lists@[i as int].0@,
                list_view == build_lists@[i as int].1@,
                0 <= j <= list_len,
                spec_promos_ok(promos@),
                rec@.map_values(|s: String| s@) == rec_model,
                forall|a: int, b: int|
                    0 <= a < b < build_lists@.len() ==> (#[trigger] build_lists@[a]).0@
                        != (#[trigger] build_lists@[b]).0@,
                spec_lists_error(build_lists@, manifests@) == spec_lists_error(
                    build_lists@.subrange(i as int, n as int),
                    manifests@,
                ),
                spec_list_error(mc_view, list_view, manifests@) == spec_list_error(
                    mc_view,
                    list_view.subrange(j as int, list_len as int),
                    manifests@,
                ),
                forall|k: int|
                    0 <= k < vers@.len() ==> spec_entry_ok(
                        #[trigger] vers@[k],
                        rec_model,
                        build_lists@,
                        manifests@,
                    ),
                spec_covered(vers@, build_lists@, i as int, j as int),
                versions_list@.len() == j,
                forall|k: int|
                    0 <= k < j ==> (#[trigger] versions_list@[k])@ == list_view[k]@,
                match spec_last_recommended(list_view.subrange(0, j as int), rec_model) {
                    Some(x) => recommended_lv matches Some(s) && s@ == x,
                    None => recommended_lv is None,
                },
            decreases list_len - j,
        {
            let lv: &String = &build_lists[i].1[j];
            proof {
                assert(list_view.subrange(j as int, list_len as int)[0] == list_view[j as int]);
                assert(list_view.subrange(j as int, list_len as int).subrange(
                    1,
                    (list_len - j) as int,
                ) =~= list_view.subrange(j as int + 1, list_len as int));
                assert(list_view.subrange(0, j as int + 1).drop_last() =~= list_view.subrange(
                    0,
                    j as int,
                ));
                assert(list_view.subrange(0, j as int + 1).last() == list_view[j as int]);
            }
            proof {
                assert(build_lists@.subrange(i as int, n as int)[0] == build_lists@[i as int]);
            }
            let parsed = match parse_forge_build(lv.as_str()) {
                Some(pp) => pp,
                None => {
                    proof {
                        lemma_scan_links(
                            build_lists@,
                            manifests@,
                            i as int,
                            j as int,
                            MetaError::UnparseableMetadata,
                        );
                    }
                    return Err(MetaError::UnparseableMetadata);
                },
            };
            if !str_eq(parsed.mc.as_str(), build_lists[i].0.as_str()) {
                proof {
                    lemma_scan_links(
                        build_lists@,
                        manifests@,
                        i as int,
                        j as int,
                        MetaError::DataIntegrityFault,
                    );
                }
                return Err(MetaError::DataIntegrityFault);
            }
            let manifest = match assoc_get(manifests, lv.as_str()) {
                Some(mm) => mm,
                None => {
                    proof {
                        lemma_scan_links(
                            build_lists@,
                            manifests@,
                            i as int,
                            j as int,
                            MetaError::UnparseableMetadata,
                        );
                    }
                    return Err(MetaError::UnparseableMetadata);
                },
            };
            let files = match process_file_manifest(manifest) {
                Ok(ff) => ff,
                Err(e) => {
                    proof {
                        lemma_scan_links(build_lists@, manifests@, i as int, j as int, e);
                    }
                    return Err(e);
                },
            };
            let is_rec = contains_string(&rec, parsed.version.as_str());
            proof {
                lemma_mapped_contains(rec@, parsed.version@);
            }
            let is_last = str_eq(lv.as_str(), build_lists[i].1[list_len - 1].as_str());
            proof {
                crate::assoc::lemma_assoc_get_at(build_lists@, i as int);
            }
            let entry = ForgeEntry {
                long_version: lv.clone(),
                mc_version: build_lists[i].0.clone(),
                version: parsed.version,
                build: parsed.build,
                branch: parsed.branch,
                latest: Some(is_last),
                recommended: Some(is_rec),
                files: Some(files),
            };
            let key = lv.clone();
            let ghost pre_vers = vers@;
            let ghost new_pair = (key, entry);
            proof {
                assert(spec_entry_ok(new_pair, rec_model, build_lists@, manifests@));
            }
            assoc_insert(&mut vers, key, entry);
            proof {
                crate::assoc::lemma_assoc_insert_elems(pre_vers, new_pair.0, new_pair.1);
                assert(forall|k: int|
                    0 <= k < vers@.len() ==> spec_entry_ok(
                        #[trigger] vers@[k],
                        rec_model,
                        build_lists@,
                        manifests@,
                    )) by {
                    assert(forall|k: int|
                        0 <= k < vers@.len() && vers@[k] != new_pair ==> pre_vers.contains(
                            #[trigger] vers@[k],
                        ));
                }
                assert(spec_covered(vers@, build_lists@, i as int, j as int + 1)) by {
                    assert forall|a: int, b: int|
                        0 <= a < build_lists@.len() && 0 <= b < build_lists@[a].1@.len() && (a
                            < i as int || (a == i as int && b < j as int + 1)) implies spec_assoc_get(
                        vers@,
                        (#[trigger] build_lists@[a].1@[b])@,
                    ) is Some by {
                        let kk = build_lists@[a].1@[b]@;
                        if kk == new_pair.0@ {
                            crate::assoc::lemma_assoc_insert_get_same(
                                pre_vers,
                                new_pair.0,
                                new_pair.1,
                            );
                        } else {
                            crate::assoc::lemma_assoc_insert_get_other(
                                pre_vers,
                                new_pair.0,
                                new_pair.1,
                                kk,
                            );
                        }
                    }
                }
            }
            versions_list.push(lv.clone());
            if is_rec {
                recommended_lv = Some(lv.clone());
            }
            j += 1;
        }
        let info = ForgeMCVersionInfo {
            latest: Some(build_lists[i].1[list_len - 1].clone()),
            recommended: recommended_lv,
            versions: Some(versions_list),
        };
        proof {
            assert(list_view.subrange(0, list_len as int) =~= list_view);
            assert(spec_mc_info_ok(info, list_view, rec_model)) by {
                assert(info.versions->0@.map_values(|s: String| s@) =~= list_view.map_values(
                    |s: String| s@,
                ));
            }
            assert(spec_list_error(mc_view, list_view.subrange(list_len as int, list_len as int),
                manifests@) is None);
            assert(spec_nonempty_lists(build_lists@.subrange(0, i as int + 1))
                =~= spec_nonempty_lists(build_lists@.subrange(0, i as int)).push(
                build_lists@[i as int],
            ));
        }
        let ghost pre_mcs = mcs@;
        mcs.push((build_lists[i].0.clone(), info));
        proof {
            assert(spec_covered(vers@, build_lists@, i as int + 1, 0)) by {
                assert forall|a: int, b: int|
                    0 <= a < build_lists@.len() && 0 <= b < build_lists@[a].1@.len() && (a < i as int
                        + 1) implies spec_assoc_get(
                    vers@,
                    (#[trigger] build_lists@[a].1@[b])@,
                ) is Some by {
                    assert(a < i as int || (a == i as int && b < list_len as int));
                }
            }
        }
        i += 1;
    }
    proof {
        assert(build_lists@.subrange(n as int, n as int) =~= Seq::<(String, Vec<String>)>::empty());
        assert(spec_lists_error(build_lists@, manifests@) is None);
    }
    Ok(DerivedForgeIndex { mc_versions: Some(mcs), versions: Some(vers) })
}


} // verus!
