//! The match engine: a compiled matcher, the per-line match decision, and
//! the two file-level scans (full enumeration and short-circuit existence).
//!
//! Regular-expression matching itself is delegated to the `regex` crate
//! behind trusted wrappers; everything that is decided from a match's
//! position — inversion, whole-line matching, enumeration order and the
//! short-circuit — is verified here.

use crate::line::Line;
use crate::line::LineV;
use crate::text::byte_len;
use crate::text::lines_of;
use crate::text::split_lines;
use crate::text::trim_str;
use crate::text::trimmed_of;
use crate::utils::paint;
use crate::utils::PaintColor;
use vstd::prelude::*;

verus! {

#[verifier::external_type_specification]
#[verifier::external_body]
pub struct ExRegex(regex::Regex);

/// Whether the `regex` crate accepts a pattern: valid syntax whose compiled
/// form stays within the default size limit.
pub uninterp spec fn pattern_ok(pattern: Seq<char>, case_insensitive: bool) -> bool;

/// The byte offsets of the leftmost match of a pattern in a haystack, if
/// there is one.
pub uninterp spec fn find_span(pattern: Seq<char>, case_insensitive: bool, hay: Seq<char>) -> Option<
    (usize, usize),
>;

/// Every match of a pattern in a line replaced by a red painting of the
/// matched text.
pub uninterp spec fn highlighted_of(
    pattern: Seq<char>,
    case_insensitive: bool,
    line: Seq<char>,
) -> Seq<char>;

/// A compiled pattern together with the effective case-sensitivity, built
/// once per run and reused for every file and every line.
pub struct Matcher {
    regex: regex::Regex,
    pattern: String,
    case_insensitive: bool,
}

impl Matcher {
    /// The pattern this matcher was compiled from.
    pub closed spec fn pattern_view(&self) -> Seq<char> {
        self.pattern@
    }

    /// Whether this matcher ignores case.
    pub closed spec fn ci_view(&self) -> bool {
        self.case_insensitive
    }
}

/// Relies on `regex::RegexBuilder`: `new(pattern).case_insensitive(ci).build()`
/// succeeds exactly when the pattern is acceptable, which depends on the
/// pattern text and the case flag alone.
#[verifier::external_body]
fn compile_regex(pattern: &str, case_insensitive: bool) -> (r: Option<regex::Regex>)
    ensures
        r is Some <==> pattern_ok(pattern@, case_insensitive),
{
    regex::RegexBuilder::new(pattern).case_insensitive(case_insensitive).build().ok()
}

/// Relies on `regex::Regex::find`: the byte offsets of the leftmost match in
/// the haystack, a function of the compiled pattern, its case flag and the
/// haystack alone. The `regex` field is always the compilation of the
/// `pattern` and `case_insensitive` fields: `get_regex` is the only place a
/// `Matcher` is built.
#[verifier::external_body]
fn regex_find(matcher: &Matcher, hay: &str) -> (r: Option<(usize, usize)>)
    ensures
        r == find_span(matcher.pattern_view(), matcher.ci_view(), hay@),
{
    matcher.regex.find(hay).map(|m| (m.start(), m.end()))
}

/// Relies on `regex::Regex::replace_all`, with the library's own `paint` as
/// the replacement: every non-overlapping match replaced by a red painting
/// of the matched text, a function of the compiled pattern, its case flag
/// and the line alone. The `Matcher` field pairing is as for `regex_find`.
#[verifier::external_body]
pub(crate) fn highlight_matches(matcher: &Matcher, line: &str) -> (r: String)
    ensures
        r@ == highlighted_of(matcher.pattern_view(), matcher.ci_view(), line@),
{
    matcher.regex.replace_all(line, |caps: &regex::Captures| paint(PaintColor::Red, &caps[0])).into_owned()
}

/// Build a matcher from a pattern and the case insensitive flag. `None`
/// means the pattern was rejected, a fatal configuration error.
pub fn get_regex(pattern: &str, case_insensitive: bool) -> (r: Option<Matcher>)
    ensures
        r is Some <==> pattern_ok(pattern@, case_insensitive),
        r matches Some(m) ==> m.pattern_view() == pattern@ && m.ci_view() == case_insensitive,
{
    match compile_regex(pattern, case_insensitive) {
        Some(re) => Some(
            Matcher { regex: re, pattern: pattern.to_owned(), case_insensitive: case_insensitive },
        ),
        None => None,
    }
}

/// Whether one line counts as a match: the line is trimmed of surrounding
/// whitespace, the leftmost occurrence is looked up, and then, in this
/// order: no occurrence counts as a match only under inversion; an
/// occurrence never does under inversion; under whole-line matching it must
/// span the entire trimmed line; otherwise any occurrence suffices.
pub open spec fn is_match_spec(
    pattern: Seq<char>,
    case_insensitive: bool,
    reversed: bool,
    line_regexp: bool,
    line: Seq<char>,
) -> bool {
    let t = trimmed_of(line);
    match find_span(pattern, case_insensitive, t) {
        Some(span) => if reversed {
            false
        } else if line_regexp {
            span.0 == 0 && span.1 == byte_len(t)
        } else {
            true
        },
        None => reversed,
    }
}

/// For a given line, test if the matcher matches, under the invert and
/// whole-line flags.
pub fn is_matches(matcher: &Matcher, line: &str, reversed: bool, line_regexp: bool) -> (r: bool)
    ensures
        r == is_match_spec(
            matcher.pattern_view(),
            matcher.ci_view(),
            reversed,
            line_regexp,
            line@,
        ),
{
    let trimmed = trim_str(line);
    match regex_find(matcher, trimmed) {
        Some((start, end)) => {
            if reversed {
                false
            } else if line_regexp {
                start == 0 && end == trimmed.len()
            } else {
                true
            }
        },
        None => reversed,
    }
}

/// Whether, under whole-line matching, a line's fate is settled either
/// way: the pattern is absent from the trimmed line, or its leftmost
/// occurrence spans the whole of it.
pub open spec fn whole_line_decided(pattern: Seq<char>, case_insensitive: bool, line: Seq<
    char,
>) -> bool {
    let t = trimmed_of(line);
    match find_span(pattern, case_insensitive, t) {
        Some(span) => span.0 == 0 && span.1 == byte_len(t),
        None => true,
    }
}

/// Inversion negates the per-line decision: a line counts as a match under
/// the inverted test exactly when it does not count under the plain one.
/// Under whole-line matching this holds for every line except those where
/// the pattern occurs without spanning the whole trimmed line — there both
/// tests reject the line — so those are left out.
pub proof fn lemma_invert_negates(
    pattern: Seq<char>,
    case_insensitive: bool,
    line_regexp: bool,
    line: Seq<char>,
)
    requires
        line_regexp ==> whole_line_decided(pattern, case_insensitive, line),
    ensures
        is_match_spec(pattern, case_insensitive, true, line_regexp, line) == !is_match_spec(
            pattern,
            case_insensitive,
            false,
            line_regexp,
            line,
        ),
{
}

/// Whole-line matching accepts exactly the lines whose leftmost occurrence
/// spans the entire trimmed line: a partial occurrence within a longer line
/// is rejected even though the pattern is present.
pub proof fn lemma_line_regexp_whole_span(
    pattern: Seq<char>,
    case_insensitive: bool,
    line: Seq<char>,
)
    ensures
        is_match_spec(pattern, case_insensitive, false, true, line) == (find_span(
            pattern,
            case_insensitive,
            trimmed_of(line),
        ) == Some((0usize, byte_len(trimmed_of(line))))),
{
    let t = trimmed_of(line);
    match find_span(pattern, case_insensitive, t) {
        Some(span) => {
            assert((span == (0usize, byte_len(t))) == (span.0 == 0 && span.1 == byte_len(t)));
        },
        None => {},
    }
}

/// The matched lines among the first `n` lines, each with its 0-based index,
/// in encounter order.
pub open spec fn matches_upto(
    pattern: Seq<char>,
    case_insensitive: bool,
    invert_match: bool,
    line_regexp: bool,
    lines: Seq<Seq<char>>,
    n: nat,
) -> Seq<LineV>
    decreases n,
{
    if n == 0 {
        Seq::empty()
    } else {
        let prev = matches_upto(
            pattern,
            case_insensitive,
            invert_match,
            line_regexp,
            lines,
            (n - 1) as nat,
        );
        if is_match_spec(pattern, case_insensitive, invert_match, line_regexp, lines[n - 1]) {
            prev.push(LineV { number: (n - 1) as nat, content: lines[n - 1] })
        } else {
            prev
        }
    }
}

/// Every matched line of a text, with its 0-based index, in original line
/// order.
pub open spec fn matches_spec(
    pattern: Seq<char>,
    case_insensitive: bool,
    invert_match: bool,
    line_regexp: bool,
    lines: Seq<Seq<char>>,
) -> Seq<LineV> {
    matches_upto(pattern, case_insensitive, invert_match, line_regexp, lines, lines.len())
}

/// Search all matches in a text and return an array of lines.
pub fn get_all_matches(
    matcher: &Matcher,
    content: &str,
    invert_match: bool,
    line_regexp: bool,
) -> (r: Vec<Line>)
    ensures
        r@.map_values(|l: Line| l@) == matches_spec(
            matcher.pattern_view(),
            matcher.ci_view(),
            invert_match,
            line_regexp,
            lines_of(content@),
        ),
{
    let lines = split_lines(content);
    let ghost lv = lines_of(content@);
    let mut out: Vec<Line> = Vec::new();
    let n = lines.len();
    for i in 0..n
        invariant
            n == lines.len(),
            lv == lines@.map_values(|l: String| l@),
            out@.map_values(|l: Line| l@) == matches_upto(
                matcher.pattern_view(),
                matcher.ci_view(),
                invert_match,
                line_regexp,
                lv,
                i as nat,
            ),
    {
        if is_matches(matcher, lines[i].as_str(), invert_match, line_regexp) {
            out.push(Line::new(i, lines[i].clone()));
        }
        proof {
            assert(lv[i as int] == lines@[i as int]@);
            assert(out@.map_values(|l: Line| l@) =~= matches_upto(
                matcher.pattern_view(),
                matcher.ci_view(),
                invert_match,
                line_regexp,
                lv,
                (i + 1) as nat,
            ));
        }
    }
    out
}

/// Whether any line of a text counts as a match under the flags.
pub open spec fn has_match_spec(
    pattern: Seq<char>,
    case_insensitive: bool,
    invert_match: bool,
    line_regexp: bool,
    lines: Seq<Seq<char>>,
) -> bool {
    exists|i: int|
        0 <= i < lines.len() && is_match_spec(
            pattern,
            case_insensitive,
            invert_match,
            line_regexp,
            lines[i],
        )
}

/// Return true at the first match or false instead, skipping the rest of
/// the file: the short-circuit scan behind the file-name-only output modes.
pub fn has_match(matcher: &Matcher, content: &str, invert_match: bool, line_regexp: bool) -> (r:
    bool)
    ensures
        r == has_match_spec(
            matcher.pattern_view(),
            matcher.ci_view(),
            invert_match,
            line_regexp,
            lines_of(content@),
        ),
{
    let lines = split_lines(content);
    let ghost lv = lines_of(content@);
    let n = lines.len();
    for i in 0..n
        invariant
            n == lines.len(),
            lv == lines_of(content@),
            lv == lines@.map_values(|l: String| l@),
            forall|j: int|
                0 <= j < i ==> !is_match_spec(
                    matcher.pattern_view(),
                    matcher.ci_view(),
                    invert_match,
                    line_regexp,
                    lv[j],
                ),
    {
        if is_matches(matcher, lines[i].as_str(), invert_match, line_regexp) {
            proof {
                assert(lv[i as int] == lines@[i as int]@);
                assert(is_match_spec(
                    matcher.pattern_view(),
                    matcher.ci_view(),
                    invert_match,
                    line_regexp,
                    lines_of(content@)[i as int],
                ));
            }
            return true;
        }
        proof {
            assert(lv[i as int] == lines@[i as int]@);
        }
    }
    false
}

proof fn lemma_matches_upto_props(
    pattern: Seq<char>,
    case_insensitive: bool,
    invert_match: bool,
    line_regexp: bool,
    lines: Seq<Seq<char>>,
    n: nat,
)
    requires
        n <= lines.len(),
    ensures
        ({
            let ms = matches_upto(pattern, case_insensitive, invert_match, line_regexp, lines, n);
            &&& forall|k: int|
                0 <= k < ms.len() ==> (#[trigger] ms[k]).number < n && ms[k].content == lines[ms[k].number as int]
                    && is_match_spec(
                    pattern,
                    case_insensitive,
                    invert_match,
                    line_regexp,
                    lines[ms[k].number as int],
                )
            &&& forall|k1: int, k2: int|
                0 <= k1 < k2 < ms.len() ==> (#[trigger] ms[k1]).number < (#[trigger] ms[k2]).number
            &&& forall|i: int|
                0 <= i < n ==> (is_match_spec(
                    pattern,
                    case_insensitive,
                    invert_match,
                    line_regexp,
                    #[trigger] lines[i],
                ) <==> exists|k: int| 0 <= k < ms.len() && (#[trigger] ms[k]).number == i)
        }),
    decreases n,
{
    if n > 0 {
        lemma_matches_upto_props(
            pattern,
            case_insensitive,
            invert_match,
            line_regexp,
            lines,
            (n - 1) as nat,
        );
        let prev = matches_upto(
            pattern,
            case_insensitive,
            invert_match,
            line_regexp,
            lines,
            (n - 1) as nat,
        );
        let ms = matches_upto(pattern, case_insensitive, invert_match, line_regexp, lines, n);
        if is_match_spec(pattern, case_insensitive, invert_match, line_regexp, lines[n - 1]) {
            assert(ms == prev.push(LineV { number: (n - 1) as nat, content: lines[n - 1] }));
            assert(forall|k: int| 0 <= k < prev.len() ==> ms[k] == prev[k]);
            assert(ms[ms.len() - 1].number == n - 1);
        } else {
            assert(ms == prev);
        }
        assert forall|i: int|
            #![trigger lines[i]]
            0 <= i < n && is_match_spec(
                pattern,
                case_insensitive,
                invert_match,
                line_regexp,
                lines[i],
            ) implies exists|k: int| 0 <= k < ms.len() && (#[trigger] ms[k]).number == i by {
            if i == n - 1 {
                assert(ms[ms.len() - 1].number == i);
            } else {
                let k0 = choose|k: int| 0 <= k < prev.len() && (#[trigger] prev[k]).number == i;
                assert(ms[k0].number == i);
            }
        }
        assert forall|i: int|
            #![trigger lines[i]]
            0 <= i < n && (exists|k: int| 0 <= k < ms.len() && (#[trigger] ms[k]).number == i)
            implies is_match_spec(
            pattern,
            case_insensitive,
            invert_match,
            line_regexp,
            lines[i],
        ) by {
            let k0 = choose|k: int| 0 <= k < ms.len() && (#[trigger] ms[k]).number == i;
            if k0 < prev.len() {
                assert(ms[k0] == prev[k0]);
                assert(is_match_spec(
                    pattern,
                    case_insensitive,
                    invert_match,
                    line_regexp,
                    lines[prev[k0].number as int],
                ));
            }
        }
    }
}

/// Enumeration preserves the original line order: every entry carries the
/// 0-based index of its line and that line's original text, entries appear
/// in strictly increasing index order, and an index appears exactly when
/// its line counts as a match.
pub proof fn lemma_enumerate_order(
    pattern: Seq<char>,
    case_insensitive: bool,
    invert_match: bool,
    line_regexp: bool,
    lines: Seq<Seq<char>>,
)
    ensures
        ({
            let ms = matches_spec(pattern, case_insensitive, invert_match, line_regexp, lines);
            &&& forall|k: int|
                0 <= k < ms.len() ==> (#[trigger] ms[k]).number < lines.len() && ms[k].content
                    == lines[ms[k].number as int]
            &&& forall|k1: int, k2: int|
                0 <= k1 < k2 < ms.len() ==> (#[trigger] ms[k1]).number < (#[trigger] ms[k2]).number
            &&& forall|i: int|
                0 <= i < lines.len() ==> (is_match_spec(
                    pattern,
                    case_insensitive,
                    invert_match,
                    line_regexp,
                    #[trigger] lines[i],
                ) <==> exists|k: int| 0 <= k < ms.len() && (#[trigger] ms[k]).number == i)
        }),
{
    lemma_matches_upto_props(
        pattern,
        case_insensitive,
        invert_match,
        line_regexp,
        lines,
        lines.len(),
    );
    assert(matches_spec(pattern, case_insensitive, invert_match, line_regexp, lines)
        == matches_upto(pattern, case_insensitive, invert_match, line_regexp, lines, lines.len()));
}

/// The short-circuit scan and the full enumeration agree on file-level
/// presence: some line of a file counts as a match exactly when the file's
/// enumeration is non-empty.
pub proof fn lemma_exists_iff_matches(
    pattern: Seq<char>,
    case_insensitive: bool,
    invert_match: bool,
    line_regexp: bool,
    lines: Seq<Seq<char>>,
)
    ensures
        has_match_spec(pattern, case_insensitive, invert_match, line_regexp, lines)
            <==> matches_spec(pattern, case_insensitive, invert_match, line_regexp, lines).len()
            > 0,
{
    lemma_matches_upto_props(
        pattern,
        case_insensitive,
        invert_match,
        line_regexp,
        lines,
        lines.len(),
    );
    let ms = matches_spec(pattern, case_insensitive, invert_match, line_regexp, lines);
    if has_match_spec(pattern, case_insensitive, invert_match, line_regexp, lines) {
        let i = choose|i: int|
            0 <= i < lines.len() && is_match_spec(
                pattern,
                case_insensitive,
                invert_match,
                line_regexp,
                lines[i],
            );
        assert(exists|k: int| 0 <= k < ms.len() && (#[trigger] ms[k]).number == i);
    }
    if ms.len() > 0 {
        assert(is_match_spec(
            pattern,
            case_insensitive,
            invert_match,
            line_regexp,
            lines[ms[0].number as int],
        ));
    }
}

} // verus!
