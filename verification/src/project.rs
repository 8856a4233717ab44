//! Project-level errors and the rule that turns a display name into a
//! safe file-name slug.

use vstd::prelude::*;
use vstd::string::*;

use crate::text::push_char;

verus! {

/// std's I/O error type, used opaquely.
#[verifier::external_type_specification]
#[verifier::external_body]
pub struct ExIoError(std::io::Error);

/// serde_json's error type, used opaquely.
#[verifier::external_type_specification]
#[verifier::external_body]
pub struct ExJsonError(serde_json::Error);

/// Errors of loading and saving projects and profiles.
#[derive(Debug)]
pub enum ProjectError {
    Io(std::io::Error),
    Json(serde_json::Error),
    InvalidProject(String),
}

/// The text of an I/O error, from std's `Display` for `std::io::Error`.
/// Nothing is claimed of the text.
#[verifier::external_body]
fn io_error_text(e: &std::io::Error) -> String {
    e.to_string()
}

/// The text of a JSON error, from serde_json's `Display` for
/// `serde_json::Error`. Nothing is claimed of the text.
#[verifier::external_body]
fn json_error_text(e: &serde_json::Error) -> String {
    e.to_string()
}

impl ProjectError {
    /// Human-readable description: `"I/O error: …"`, `"JSON error: …"` or
    /// `"Invalid project: <message>"`.
    pub fn message(&self) -> (r: String)
        ensures
            self matches ProjectError::InvalidProject(m) ==> r@ == "Invalid project: "@ + m@,
            self is Io ==> r@.take(11) == "I/O error: "@,
            self is Json ==> r@.take(12) == "JSON error: "@,
    {
        match self {
            ProjectError::Io(e) => {
                let mut s = String::from_str("I/O error: ");
                let t = io_error_text(e);
                s.append(t.as_str());
                proof {
                    reveal_strlit("I/O error: ");
                    assert(s@.take(11) =~= "I/O error: "@);
                }
                s
            },
            ProjectError::Json(e) => {
                let mut s = String::from_str("JSON error: ");
                let t = json_error_text(e);
                s.append(t.as_str());
                proof {
                    reveal_strlit("JSON error: ");
                    assert(s@.take(12) =~= "JSON error: "@);
                }
                s
            },
            ProjectError::InvalidProject(m) => {
                let mut s = String::from_str("Invalid project: ");
                s.append(m.as_str());
                s
            },
        }
    }
}

impl From<std::io::Error> for ProjectError {
    fn from(e: std::io::Error) -> (r: Self) {
        ProjectError::Io(e)
    }
}

impl vstd::std_specs::convert::FromSpecImpl<std::io::Error> for ProjectError {
    open spec fn obeys_from_spec() -> bool {
        true
    }

    open spec fn from_spec(v: std::io::Error) -> Self {
        ProjectError::Io(v)
    }
}

impl From<serde_json::Error> for ProjectError {
    fn from(e: serde_json::Error) -> (r: Self) {
        ProjectError::Json(e)
    }
}

impl vstd::std_specs::convert::FromSpecImpl<serde_json::Error> for ProjectError {
    open spec fn obeys_from_spec() -> bool {
        true
    }

    open spec fn from_spec(v: serde_json::Error) -> Self {
        ProjectError::Json(v)
    }
}

// ── Slugs ───────────────────────────────────────────────────────────

/// Unicode alphanumeric property of a character (`char::is_alphanumeric`).
pub uninterp spec fn unicode_alphanumeric(c: char) -> bool;

/// ASCII letters and digits.
pub open spec fn ascii_alphanumeric(c: char) -> bool {
    ('a' <= c && c <= 'z') || ('A' <= c && c <= 'Z') || ('0' <= c && c <= '9')
}

/// Whether `c` is alphanumeric: ASCII letters and digits among ASCII
/// characters, Unicode's alphabetic-or-numeric property beyond them.
pub open spec fn alphanumeric(c: char) -> bool {
    if (c as u32) < 128 {
        ascii_alphanumeric(c)
    } else {
        unicode_alphanumeric(c)
    }
}

/// Calls std's `char::is_alphanumeric`: whether `c` is alphabetic or numeric
/// in Unicode's sense. For ASCII characters std documents the result (letters
/// and digits); beyond ASCII the result is named `unicode_alphanumeric`.
#[verifier::external_body]
fn char_is_alphanumeric(c: char) -> (r: bool)
    ensures
        (c as u32) < 128 ==> r == ascii_alphanumeric(c),
        (c as u32) >= 128 ==> r == unicode_alphanumeric(c),
{
    c.is_alphanumeric()
}

/// ASCII upper-case letters mapped to lower case; every other character kept.
pub open spec fn ascii_lower(c: char) -> char {
    if 'A' <= c && c <= 'Z' {
        ((c as u32) + 32) as char
    } else {
        c
    }
}

pub(crate) fn to_ascii_lower(c: char) -> (r: char)
    ensures
        r == ascii_lower(c),
{
    if 'A' <= c && c <= 'Z' {
        ((c as u8) + 32) as char
    } else {
        c
    }
}

/// The slug character of `c`: kept (lower-cased) when it is alphanumeric, a
/// dash or an underscore; a dash otherwise.
pub open spec fn slug_char(c: char) -> char {
    if alphanumeric(c) || c == '-' || c == '_' {
        ascii_lower(c)
    } else {
        '-'
    }
}

/// `s` with every run of dashes shortened to one dash and leading dashes
/// dropped.
pub open spec fn collapse_dashes(s: Seq<char>) -> Seq<char>
    decreases s.len(),
{
    if s.len() == 0 {
        Seq::empty()
    } else {
        let prev = collapse_dashes(s.drop_last());
        if s.last() == '-' {
            if prev.len() > 0 && prev.last() != '-' {
                prev.push('-')
            } else {
                prev
            }
        } else {
            prev.push(s.last())
        }
    }
}

/// `s` without its trailing dashes.
pub open spec fn trim_trailing_dashes(s: Seq<char>) -> Seq<char>
    decreases s.len(),
{
    if s.len() > 0 && s.last() == '-' {
        trim_trailing_dashes(s.drop_last())
    } else {
        s
    }
}

/// The slug of a name: every character mapped by `slug_char`, dash runs
/// collapsed, leading and trailing dashes removed, and `"untitled"` when
/// nothing is left.
pub open spec fn spec_slugify(name: Seq<char>) -> Seq<char> {
    let core = trim_trailing_dashes(collapse_dashes(name.map_values(|c: char| slug_char(c))));
    if core.len() == 0 {
        "untitled"@
    } else {
        core
    }
}

/// Convert a name to a safe filename slug.
pub fn slugify(name: &str) -> (r: String)
    ensures
        r@ == spec_slugify(name@),
{
    let ghost mapped = name@.map_values(|c: char| slug_char(c));
    let n = name.unicode_len();
    let mut result = String::new();
    let mut last_dash = false;
    let mut i: usize = 0;
    while i < n
        invariant
            n == name@.len(),
            i <= n,
            mapped == name@.map_values(|c: char| slug_char(c)),
            result@ == collapse_dashes(mapped.take(i as int)),
            last_dash <==> (i > 0 && mapped[i - 1] == '-'),
            last_dash && result@.len() > 0 ==> result@.last() == '-',
            !last_dash && i > 0 ==> result@.len() > 0 && result@.last() != '-',
            !last_dash && i == 0 ==> result@.len() == 0,
        decreases n - i,
    {
        let ch = name.get_char(i);
        let c = if char_is_alphanumeric(ch) || ch == '-' || ch == '_' {
            to_ascii_lower(ch)
        } else {
            '-'
        };
        assert(c == mapped[i as int]);
        assert(mapped.take(i as int + 1).drop_last() =~= mapped.take(i as int));
        if c == '-' {
            if !last_dash && result.unicode_len() > 0 {
                push_char(&mut result, '-');
            }
            last_dash = true;
        } else {
            push_char(&mut result, c);
            last_dash = false;
        }
        i += 1;
    }
    assert(mapped.take(n as int) =~= mapped);
    // Trim trailing dash (runs are already collapsed, so at most one).
    let mut len = result.unicode_len();
    let ghost collapsed = result@;
    if len > 0 && result.get_char(len - 1) == '-' {
        let trimmed = result.as_str().substring_char(0, len - 1);
        let t = String::from_str(trimmed);
        proof {
            lemma_collapse_no_double_dash(mapped);
            assert(t@ =~= collapsed.drop_last());
            if t@.len() > 0 {
                assert(t@.last() == collapsed[collapsed.len() - 2]);
            }
            assert(trim_trailing_dashes(t@) == t@);
        }
        result = t;
        len = len - 1;
    }
    if len == 0 {
        String::from_str("untitled")
    } else {
        result
    }
}

/// No two dashes stand next to each other in `s`.
pub open spec fn no_double_dash(s: Seq<char>) -> bool {
    forall|k: int, l: int|
        0 <= k && l == k + 1 && l < s.len() ==> !(#[trigger] s[k] == '-' && #[trigger] s[l] == '-')
}

/// A collapsed string never holds two dashes in a row and never starts with one.
pub proof fn lemma_collapse_no_double_dash(s: Seq<char>)
    ensures
        no_double_dash(collapse_dashes(s)),
        collapse_dashes(s).len() > 0 ==> collapse_dashes(s)[0] != '-',
    decreases s.len(),
{
    if s.len() > 0 {
        lemma_collapse_no_double_dash(s.drop_last());
    }
}

/// `trim_trailing_dashes(s)` is a prefix of `s` that does not end with a dash.
pub proof fn lemma_trim_prefix(s: Seq<char>)
    ensures
        trim_trailing_dashes(s).len() <= s.len(),
        trim_trailing_dashes(s) =~= s.take(trim_trailing_dashes(s).len() as int),
        trim_trailing_dashes(s).len() > 0 ==> trim_trailing_dashes(s).last() != '-',
    decreases s.len(),
{
    if s.len() > 0 && s.last() == '-' {
        lemma_trim_prefix(s.drop_last());
    }
}

/// Every character of a collapsed string is a dash or a character of the input.
pub proof fn lemma_collapse_chars(s: Seq<char>)
    ensures
        forall|k: int|
            0 <= k < collapse_dashes(s).len() ==> #[trigger] collapse_dashes(s)[k] == '-'
                || s.contains(collapse_dashes(s)[k]),
        collapse_dashes(s).len() <= s.len(),
    decreases s.len(),
{
    if s.len() > 0 {
        lemma_collapse_chars(s.drop_last());
        let prev = collapse_dashes(s.drop_last());
        assert forall|k: int|
            0 <= k < collapse_dashes(s).len() implies #[trigger] collapse_dashes(s)[k] == '-'
                || s.contains(collapse_dashes(s)[k]) by {
            if k < prev.len() {
                if prev[k] != '-' {
                    let j = choose|j: int| 0 <= j < s.drop_last().len() && s.drop_last()[j] == prev[k];
                    assert(s[j] == prev[k]);
                }
            } else {
                assert(s[s.len() - 1] == s.last());
            }
        }
    }
}

/// A string without doubled or leading dashes is unchanged by collapsing.
pub proof fn lemma_collapse_fixed(s: Seq<char>)
    requires
        no_double_dash(s),
        s.len() > 0 ==> s[0] != '-',
    ensures
        collapse_dashes(s) == s,
    decreases s.len(),
{
    if s.len() > 0 {
        let p = s.drop_last();
        assert(no_double_dash(p)) by {
            assert forall|k: int, l: int|
                0 <= k && l == k + 1 && l < p.len() implies !(#[trigger] p[k] == '-'
                    && #[trigger] p[l] == '-') by {
                assert(s[k] == p[k] && s[l] == p[l]);
            }
        }
        if p.len() > 0 {
            assert(p[0] == s[0]);
        }
        lemma_collapse_fixed(p);
        if s.last() == '-' {
            assert(p.len() > 0);
            assert(s[s.len() - 2] == p.last());
            assert(s[s.len() - 1] == s.last());
        }
        assert(s =~= p.push(s.last()));
    }
}

/// Slugs are fixed points of the character map.
pub proof fn lemma_slug_char_idempotent(c: char)
    ensures
        slug_char(slug_char(c)) == slug_char(c),
{
    if alphanumeric(c) || c == '-' || c == '_' {
        if 'A' <= c && c <= 'Z' {
            let l = ((c as u32) + 32) as char;
            assert('a' <= l && l <= 'z');
        }
    }
}

/// The slug of any name is non-empty, neither starts nor ends with a dash,
/// and never holds two dashes in a row.
pub proof fn lemma_slug_shape(name: Seq<char>)
    ensures
        spec_slugify(name).len() > 0,
        spec_slugify(name)[0] != '-',
        spec_slugify(name).last() != '-',
        no_double_dash(spec_slugify(name)),
{
    let mapped = name.map_values(|c: char| slug_char(c));
    let col = collapse_dashes(mapped);
    lemma_collapse_no_double_dash(mapped);
    lemma_trim_prefix(col);
    let core = trim_trailing_dashes(col);
    if core.len() == 0 {
        reveal_strlit("untitled");
    } else {
        assert(core[0] == col[0]);
        assert forall|k: int, l: int|
            0 <= k && l == k + 1 && l < core.len() implies !(#[trigger] core[k] == '-'
                && #[trigger] core[l] == '-') by {
            assert(core[k] == col[k] && core[l] == col[l]);
        }
    }
}

/// Slugifying a slug gives it back unchanged.
pub proof fn lemma_slugify_idempotent(name: Seq<char>)
    ensures
        spec_slugify(spec_slugify(name)) == spec_slugify(name),
{
    let r = spec_slugify(name);
    let mapped = name.map_values(|c: char| slug_char(c));
    let col = collapse_dashes(mapped);
    lemma_collapse_chars(mapped);
    lemma_trim_prefix(col);
    lemma_slug_shape(name);
    let core = trim_trailing_dashes(col);
    // every character of the slug is a fixed point of `slug_char`
    assert forall|k: int| 0 <= k < r.len() implies slug_char(#[trigger] r[k]) == r[k] by {
        if core.len() == 0 {
            reveal_strlit("untitled");
        } else {
            assert(r[k] == col[k]);
            if col[k] != '-' {
                let j = choose|j: int| 0 <= j < mapped.len() && mapped[j] == col[k];
                lemma_slug_char_idempotent(name[j]);
            }
        }
    }
    let remapped = r.map_values(|c: char| slug_char(c));
    assert(remapped =~= r);
    lemma_collapse_fixed(r);
}

/// A character a slug may hold: no ASCII upper-case letter, and an
/// alphanumeric character, a dash or an underscore.
pub open spec fn slug_safe(c: char) -> bool {
    !('A' <= c && c <= 'Z') && (alphanumeric(c) || c == '-' || c == '_')
}

proof fn lemma_slug_char_safe(c: char)
    ensures
        slug_safe(slug_char(c)),
{
    if alphanumeric(c) || c == '-' || c == '_' {
        if 'A' <= c && c <= 'Z' {
            let l = ((c as u32) + 32) as char;
            assert('a' <= l && l <= 'z');
            assert((l as u32) < 128);
        }
    }
}

/// What every slug is: non-empty, without a leading or trailing dash,
/// without two dashes in a row, made of lower-case-or-other alphanumeric
/// characters, dashes and underscores only, and its own slug.
pub proof fn lemma_slugify_law(name: Seq<char>)
    ensures
        spec_slugify(name).len() > 0,
        spec_slugify(name)[0] != '-',
        spec_slugify(name).last() != '-',
        no_double_dash(spec_slugify(name)),
        forall|k: int| 0 <= k < spec_slugify(name).len() ==> slug_safe(#[trigger] spec_slugify(name)[k]),
        spec_slugify(spec_slugify(name)) == spec_slugify(name),
{
    lemma_slug_shape(name);
    lemma_slugify_idempotent(name);
    let r = spec_slugify(name);
    let mapped = name.map_values(|c: char| slug_char(c));
    let col = collapse_dashes(mapped);
    lemma_collapse_chars(mapped);
    lemma_trim_prefix(col);
    let core = trim_trailing_dashes(col);
    assert forall|k: int| 0 <= k < r.len() implies slug_safe(#[trigger] r[k]) by {
        if core.len() == 0 {
            reveal_strlit("untitled");
            assert(r == "untitled"@);
        } else {
            assert(r[k] == col[k]);
            if col[k] != '-' {
                let j = choose|j: int| 0 <= j < mapped.len() && mapped[j] == col[k];
                lemma_slug_char_safe(name[j]);
            }
        }
    }
}

} // verus!
