//! Gradle-style artifact coordinates: `group:artifact:version[:classifier][@ext]`.
//!
//! Parsing and formatting are exact inverses of one another; the two
//! round-trip lemmas at the end of the module state this for every
//! well-formed coordinate and every canonical text.
use vstd::prelude::*;

use crate::strutil::{
    lemma_join_split, lemma_split_concat, lemma_split_len, lemma_split_no_sep, replace_char,
    spec_join, spec_replace, spec_split, split_str,
};
use crate::MetaError;

verus! {

/// The mathematical content of a coordinate: each segment as a character
/// sequence.
#[verifier::ext_equal]
pub struct CoordView {
    pub group: Seq<char>,
    pub artifact: Seq<char>,
    pub version: Seq<char>,
    pub extension: Option<Seq<char>>,
    pub classifier: Option<Seq<char>>,
}

/// A Gradle specifier.
#[derive(Debug, Clone)]
pub struct GradleSpecifier {
    /// Group of the artifact.
    pub group: String,
    /// Artifact name.
    pub artifact: String,
    /// Version of the artifact.
    pub version: String,
    /// File extension of the artifact.
    pub extension: Option<String>,
    /// Classifier of the artifact.
    pub classifier: Option<String>,
}

impl View for GradleSpecifier {
    type V = CoordView;

    open spec fn view(&self) -> CoordView {
        CoordView {
            group: self.group@,
            artifact: self.artifact@,
            version: self.version@,
            extension: match self.extension {
                Some(e) => Some(e@),
                None => None,
            },
            classifier: match self.classifier {
                Some(c) => Some(c@),
                None => None,
            },
        }
    }
}

/// The default extension, assumed when no `@ext` suffix is present and
/// omitted again when formatting.
pub open spec fn jar_ext() -> Seq<char> {
    seq!['j', 'a', 'r']
}

/// What parsing a coordinate text yields: split off an optional `@extension`
/// suffix, then read at least three colon-separated segments, the fourth (if
/// exactly four) being the classifier.
pub open spec fn spec_parse_coord(s: Seq<char>) -> Option<CoordView> {
    let at = spec_split(s, '@');
    let comps = spec_split(at[0], ':');
    if comps.len() < 3 {
        None
    } else {
        Some(
            CoordView {
                group: comps[0],
                artifact: comps[1],
                version: comps[2],
                extension: if at.len() == 2 {
                    Some(at[1])
                } else {
                    Some(jar_ext())
                },
                classifier: if comps.len() == 4 {
                    Some(comps[3])
                } else {
                    None
                },
            },
        )
    }
}

/// The canonical text of a coordinate: the classifier segment only when
/// present, the `@ext` tag only when the extension differs from `jar`.
pub open spec fn spec_format_coord(c: CoordView) -> Seq<char> {
    let base = c.group + seq![':'] + c.artifact + seq![':'] + c.version;
    let with_classifier = match c.classifier {
        Some(cl) => base + seq![':'] + cl,
        None => base,
    };
    match c.extension {
        Some(e) => if e == jar_ext() {
            with_classifier
        } else {
            with_classifier + seq!['@'] + e
        },
        None => with_classifier,
    }
}

impl GradleSpecifier {
    /// Parse a coordinate text. Fails exactly when fewer than three
    /// colon-separated segments precede the optional `@extension` suffix.
    pub fn parse(s: &str) -> (r: Result<GradleSpecifier, MetaError>)
        ensures
            match r {
                Ok(c) => spec_parse_coord(s@) == Some(c@),
                Err(e) => spec_parse_coord(s@) is None && e == MetaError::MalformedCoordinate,
            },
    {
        proof {
            lemma_split_len(s@, '@');
        }
        let at = split_str(s, '@');
        proof {
            lemma_split_len(at@[0]@, ':');
        }
        let comps = split_str(at[0].as_str(), ':');
        if comps.len() < 3 {
            return Err(MetaError::MalformedCoordinate);
        }
        let extension: Option<String> = if at.len() == 2 {
            Some(at[1].clone())
        } else {
            proof {
                reveal_strlit("jar");
                assert("jar"@ =~= jar_ext());
            }
            Some("jar".to_owned())
        };
        let classifier: Option<String> = if comps.len() == 4 {
            Some(comps[3].clone())
        } else {
            None
        };
        Ok(
            GradleSpecifier {
                group: comps[0].clone(),
                artifact: comps[1].clone(),
                version: comps[2].clone(),
                extension,
                classifier,
            },
        )
    }

    /// The canonical text form of this coordinate.
    pub fn to_text(&self) -> (r: String)
        ensures
            r@ == spec_format_coord(self@),
    {
        let mut out = self.group.clone();
        out.push(':');
        out.append(self.artifact.as_str());
        out.push(':');
        out.append(self.version.as_str());
        if let Some(cl) = &self.classifier {
            out.push(':');
            out.append(cl.as_str());
        }
        if let Some(e) = &self.extension {
            proof {
                reveal_strlit("jar");
                assert("jar"@ =~= jar_ext());
            }
            let jar: String = "jar".to_owned();
            if !(*e == jar) {
                out.push('@');
                out.append(e.as_str());
            }
        }
        proof {
            assert(out@ =~= spec_format_coord(self@));
        }
        out
    }

    /// The file name of the artifact:
    /// `artifact-version[-classifier].extension`, with an absent extension
    /// rendered as the empty string.
    pub fn filename(&self) -> (r: String)
        ensures
            r@ == spec_coord_filename(self@),
    {
        let mut out = self.artifact.clone();
        out.push('-');
        out.append(self.version.as_str());
        if let Some(cl) = &self.classifier {
            out.push('-');
            out.append(cl.as_str());
        }
        out.push('.');
        if let Some(e) = &self.extension {
            out.append(e.as_str());
        }
        proof {
            assert(out@ =~= spec_coord_filename(self@));
        }
        out
    }

    /// The base path of the artifact: the group with dots as path
    /// separators, then the artifact, then the version.
    pub fn base(&self) -> (r: String)
        ensures
            r@ == spec_coord_base(self@),
    {
        let mut out = replace_char(self.group.as_str(), '.', '/');
        out.push('/');
        out.append(self.artifact.as_str());
        out.push('/');
        out.append(self.version.as_str());
        proof {
            assert(out@ =~= spec_coord_base(self@));
        }
        out
    }

    /// The full path of the artifact: base path, then file name.
    pub fn path(&self) -> (r: String)
        ensures
            r@ == spec_coord_base(self@) + seq!['/'] + spec_coord_filename(self@),
    {
        let mut out = self.base();
        out.push('/');
        let name = self.filename();
        let r = out.concat(name.as_str());
        r
    }

    /// Whether the group belongs to the fixed family of native-library
    /// (LWJGL and friends) artifacts.
    pub fn is_lwjgl(&self) -> (r: bool)
        ensures
            r == spec_is_lwjgl(self@),
    {
        self.group == "org.lwjgl".to_owned() || self.group == "org.lwjgl.lwjgl".to_owned()
            || self.group == "net.java.jinput".to_owned() || self.group
            == "net.java.jutils".to_owned()
    }

    /// Whether the group belongs to the logging-library family.
    pub fn is_log4j(&self) -> (r: bool)
        ensures
            r == spec_is_log4j(self@),
    {
        self.group == "org.apache.logging.log4j".to_owned()
    }
}

pub open spec fn spec_coord_filename(c: CoordView) -> Seq<char> {
    let ext = match c.extension {
        Some(e) => e,
        None => Seq::<char>::empty(),
    };
    match c.classifier {
        Some(cl) => c.artifact + seq!['-'] + c.version + seq!['-'] + cl + seq!['.'] + ext,
        None => c.artifact + seq!['-'] + c.version + seq!['.'] + ext,
    }
}

pub open spec fn spec_coord_base(c: CoordView) -> Seq<char> {
    spec_replace(c.group, '.', '/') + seq!['/'] + c.artifact + seq!['/'] + c.version
}

pub open spec fn spec_is_lwjgl(c: CoordView) -> bool {
    c.group == "org.lwjgl"@ || c.group == "org.lwjgl.lwjgl"@ || c.group == "net.java.jinput"@
        || c.group == "net.java.jutils"@
}

pub open spec fn spec_is_log4j(c: CoordView) -> bool {
    c.group == "org.apache.logging.log4j"@
}

/// Well-formedness of a coordinate value: the three mandatory segments are
/// non-empty, no segment smuggles in a separator, and the extension is
/// explicit. Exactly these coordinates survive a format/parse round trip.
pub open spec fn coord_wf(c: CoordView) -> bool {
    &&& c.group.len() > 0 && !c.group.contains(':') && !c.group.contains('@')
    &&& c.artifact.len() > 0 && !c.artifact.contains(':') && !c.artifact.contains('@')
    &&& c.version.len() > 0 && !c.version.contains(':') && !c.version.contains('@')
    &&& match c.classifier {
        Some(cl) => !cl.contains(':') && !cl.contains('@'),
        None => true,
    }
    &&& match c.extension {
        Some(e) => !e.contains('@'),
        None => false,
    }
}

/// Concatenation introduces no new characters.
proof fn lemma_concat_free(a: Seq<char>, b: Seq<char>, x: char)
    requires
        !a.contains(x),
        !b.contains(x),
    ensures
        !(a + b).contains(x),
{
    if (a + b).contains(x) {
        let i = choose|i: int| 0 <= i < (a + b).len() && (a + b)[i] == x;
        if i < a.len() {
            assert(a[i] == x);
        } else {
            assert(b[i - a.len()] == x);
        }
    }
}

proof fn lemma_single_free(c: char, x: char)
    requires
        c != x,
    ensures
        !seq![c].contains(x),
{
    if seq![c].contains(x) {
        let i = choose|i: int| 0 <= i < 1 && seq![c][i] == x;
    }
}

/// Parsing inverts formatting: every well-formed coordinate is recovered
/// exactly from its canonical text.
pub proof fn lemma_parse_format_roundtrip(c: CoordView)
    requires
        coord_wf(c),
    ensures
        spec_parse_coord(spec_format_coord(c)) == Some(c),
{
    let colon = seq![':'];
    let base = c.group + colon + c.artifact + colon + c.version;
    let body = match c.classifier {
        Some(cl) => base + colon + cl,
        None => base,
    };
    let e = c.extension->0;

    // The body holds no '@'.
    lemma_single_free(':', '@');
    lemma_concat_free(c.group, colon, '@');
    lemma_concat_free(c.group + colon, c.artifact, '@');
    lemma_concat_free(c.group + colon + c.artifact, colon, '@');
    lemma_concat_free(c.group + colon + c.artifact + colon, c.version, '@');
    if c.classifier is Some {
        lemma_concat_free(base, colon, '@');
        lemma_concat_free(base + colon, c.classifier->0, '@');
    }
    assert(!body.contains('@'));

    // Splitting the body at ':' recovers the segments.
    lemma_split_no_sep(c.version, ':');
    if c.classifier is Some {
        let cl = c.classifier->0;
        lemma_split_no_sep(cl, ':');
        lemma_split_concat(c.version, cl, ':');
        assert(c.version + colon + cl =~= c.version + colon + cl);
        lemma_split_concat(c.artifact, c.version + colon + cl, ':');
        lemma_split_concat(c.group, c.artifact + colon + (c.version + colon + cl), ':');
        assert(c.group + colon + (c.artifact + colon + (c.version + colon + cl)) =~= body);
        lemma_split_no_sep(c.artifact, ':');
        lemma_split_no_sep(c.group, ':');
        assert(spec_split(body, ':') =~~= seq![c.group, c.artifact, c.version, cl]);
    } else {
        lemma_split_concat(c.artifact, c.version, ':');
        lemma_split_concat(c.group, c.artifact + colon + c.version, ':');
        assert(c.group + colon + (c.artifact + colon + c.version) =~= body);
        lemma_split_no_sep(c.artifact, ':');
        lemma_split_no_sep(c.group, ':');
        assert(spec_split(body, ':') =~~= seq![c.group, c.artifact, c.version]);
    }

    if e == jar_ext() {
        // The tag is omitted; the whole text is the body.
        assert(spec_format_coord(c) == body);
        lemma_split_no_sep(body, '@');
        assert(spec_split(body, '@') == seq![body]);
        assert(spec_parse_coord(spec_format_coord(c)) =~~= Some(c));
    } else {
        let full = body + seq!['@'] + e;
        assert(spec_format_coord(c) == full);
        lemma_split_no_sep(e, '@');
        lemma_split_no_sep(body, '@');
        lemma_split_concat(body, e, '@');
        assert(spec_split(full, '@') =~~= seq![body, e]);
        assert(spec_parse_coord(spec_format_coord(c)) =~~= Some(c));
    }
}

/// Canonical coordinate text: at most one `@` tag whose extension is not the
/// default, three or four colon-separated segments, the mandatory ones
/// non-empty.
pub open spec fn coord_canonical(s: Seq<char>) -> bool {
    let at = spec_split(s, '@');
    let comps = spec_split(at[0], ':');
    &&& (at.len() == 1 || (at.len() == 2 && at[1] != jar_ext()))
    &&& (comps.len() == 3 || comps.len() == 4)
    &&& comps[0].len() > 0
    &&& comps[1].len() > 0
    &&& comps[2].len() > 0
}

/// Joining a single part is that part.
proof fn lemma_join_one(x: Seq<char>, sep: char)
    ensures
        spec_join(seq![x], sep) == x,
{
}

proof fn lemma_join_two(x: Seq<char>, y: Seq<char>, sep: char)
    ensures
        spec_join(seq![x, y], sep) == x + seq![sep] + y,
{
    lemma_join_one(y, sep);
    assert(seq![x, y].subrange(1, 2) =~= seq![y]);
    assert(spec_join(seq![x, y], sep) == x + seq![sep] + spec_join(seq![x, y].subrange(1, 2), sep));
}

proof fn lemma_join_three(x: Seq<char>, y: Seq<char>, z: Seq<char>, sep: char)
    ensures
        spec_join(seq![x, y, z], sep) == x + seq![sep] + y + seq![sep] + z,
{
    lemma_join_two(y, z, sep);
    assert(seq![x, y, z].subrange(1, 3) =~= seq![y, z]);
    assert(spec_join(seq![x, y, z], sep) == x + seq![sep] + spec_join(
        seq![x, y, z].subrange(1, 3),
        sep,
    ));
    assert(x + seq![sep] + (y + seq![sep] + z) =~= x + seq![sep] + y + seq![sep] + z);
}

proof fn lemma_join_four(w: Seq<char>, x: Seq<char>, y: Seq<char>, z: Seq<char>, sep: char)
    ensures
        spec_join(seq![w, x, y, z], sep) == w + seq![sep] + x + seq![sep] + y + seq![sep] + z,
{
    lemma_join_three(x, y, z, sep);
    assert(seq![w, x, y, z].subrange(1, 4) =~= seq![x, y, z]);
    assert(spec_join(seq![w, x, y, z], sep) == w + seq![sep] + spec_join(
        seq![w, x, y, z].subrange(1, 4),
        sep,
    ));
    assert(w + seq![sep] + (x + seq![sep] + y + seq![sep] + z) =~= w + seq![sep] + x + seq![sep] + y
        + seq![sep] + z);
}

/// Formatting inverts parsing: canonical text is reproduced exactly.
pub proof fn lemma_format_parse_roundtrip(s: Seq<char>)
    requires
        coord_canonical(s),
    ensures
        spec_parse_coord(s) is Some,
        spec_format_coord(spec_parse_coord(s)->0) == s,
{
    let at = spec_split(s, '@');
    let comps = spec_split(at[0], ':');
    let c = spec_parse_coord(s)->0;
    lemma_join_split(s, '@');
    lemma_join_split(at[0], ':');
    let colon = seq![':'];

    // at[0] is the joining of its colon-separated segments.
    if comps.len() == 3 {
        assert(comps =~= seq![comps[0], comps[1], comps[2]]);
        lemma_join_three(comps[0], comps[1], comps[2], ':');
        assert(at[0] == comps[0] + colon + comps[1] + colon + comps[2]);
        assert(c.classifier is None);
    } else {
        assert(comps =~= seq![comps[0], comps[1], comps[2], comps[3]]);
        lemma_join_four(comps[0], comps[1], comps[2], comps[3], ':');
        assert(at[0] == comps[0] + colon + comps[1] + colon + comps[2] + colon + comps[3]);
        assert(c.classifier == Some(comps[3]));
    }

    if at.len() == 1 {
        assert(c.extension == Some(jar_ext()));
        assert(at =~= seq![at[0]]);
        lemma_join_one(at[0], '@');
        assert(spec_format_coord(c) == s);
    } else {
        assert(c.extension == Some(at[1]));
        assert(at =~= seq![at[0], at[1]]);
        lemma_join_two(at[0], at[1], '@');
        assert(spec_join(at, '@') == at[0] + seq!['@'] + at[1]);
        assert(spec_format_coord(c) =~= at[0] + seq!['@'] + at[1]);
        assert(spec_format_coord(c) == s);
    }
}

} // verus!
