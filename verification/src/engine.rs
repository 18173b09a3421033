//! What the library takes from the `regex` crate: compiled regular
//! expressions, and the capture groups of their matches.
//!
//! Which texts a regular expression matches, and where, is decided by `regex`
//! alone. What it finds is given a name here, so that the contracts of the
//! parser can say which match they report.

use vstd::prelude::*;
use vstd::utf8::encode_utf8;

verus! {

/// `regex::Regex`, a compiled regular expression.
#[verifier::external_type_specification]
#[verifier::external_body]
pub struct ExRegex(regex::Regex);

/// `regex::Error`, the reason for which a regular expression did not compile.
#[verifier::external_type_specification]
#[verifier::external_body]
pub struct ExRegexError(regex::Error);

/// One capture group of a match: where its text starts and ends in the
/// searched text, as offsets in bytes, and the text itself.
#[derive(Debug, Clone, PartialEq, Eq)]
pub struct Capture {
    pub start: usize,
    pub end: usize,
    pub text: String,
}

/// A capture group as a mathematical value.
pub struct CaptureView {
    pub start: int,
    pub end: int,
    pub text: Seq<char>,
}

impl View for Capture {
    type V = CaptureView;

    open spec fn view(&self) -> CaptureView {
        CaptureView { start: self.start as int, end: self.end as int, text: self.text@ }
    }
}

/// The capture groups of one match as mathematical values: the whole match
/// first, then the groups in the order of their opening parentheses, with
/// `None` for a group that took no part in the match.
pub open spec fn group_views(groups: Seq<Option<Capture>>) -> Seq<Option<CaptureView>> {
    Seq::new(
        groups.len(),
        |i: int|
            match groups[i] {
                Some(capture) => Some(capture@),
                None => None,
            },
    )
}

/// The capture groups of a match, if there is one, as mathematical values.
pub open spec fn found_view(found: Option<Vec<Option<Capture>>>) -> Option<
    Seq<Option<CaptureView>>,
> {
    match found {
        Some(groups) => Some(group_views(groups@)),
        None => None,
    }
}

/// The capture groups of each match as mathematical values, in order.
pub open spec fn all_found_view(found: Seq<Vec<Option<Capture>>>) -> Seq<Seq<Option<CaptureView>>> {
    Seq::new(found.len(), |i: int| group_views(found[i]@))
}

/// Whether the capture group lies in `haystack`: its offsets are in order
/// and inside the text, and its text is what the text holds between them.
pub open spec fn capture_in(capture: CaptureView, haystack: Seq<char>) -> bool {
    &&& 0 <= capture.start <= capture.end <= encode_utf8(haystack).len()
    &&& encode_utf8(capture.text) == encode_utf8(haystack).subrange(capture.start, capture.end)
}

/// Whether every capture group of the match lies in `haystack`.
pub open spec fn captures_in(groups: Seq<Option<CaptureView>>, haystack: Seq<char>) -> bool {
    forall|i: int|
        0 <= i < groups.len() ==> ((#[trigger] groups[i]) matches Some(capture) ==> capture_in(
            capture,
            haystack,
        ))
}

/// Whether the match has its first group, the one for the match as a whole,
/// with offsets in order.
pub open spec fn has_whole(groups: Seq<Option<CaptureView>>) -> bool {
    groups.len() > 0 && groups[0] is Some && groups[0]->0.start <= groups[0]->0.end
}

/// Where the match as a whole starts.
pub open spec fn whole_start(groups: Seq<Option<CaptureView>>) -> int {
    groups[0]->0.start
}

/// Where the match as a whole ends.
pub open spec fn whole_end(groups: Seq<Option<CaptureView>>) -> int {
    groups[0]->0.end
}

/// Whether the matches come one after the other from left to right and do
/// not overlap: each has its whole-match group, and each ends at or before
/// the place at which the next one starts.
pub open spec fn apart(found: Seq<Seq<Option<CaptureView>>>) -> bool {
    &&& forall|k: int| 0 <= k < found.len() ==> has_whole(#[trigger] found[k])
    &&& forall|k: int|
        0 <= k && k + 1 < found.len() ==> whole_end(#[trigger] found[k]) <= whole_start(
            found[k + 1],
        )
}

/// Of matches that come one after the other, any earlier one ends at or
/// before the place at which any later one starts.
pub proof fn lemma_apart(found: Seq<Seq<Option<CaptureView>>>, i: int, j: int)
    requires
        apart(found),
        0 <= i < j < found.len(),
    ensures
        whole_start(found[i]) <= whole_end(found[i]) <= whole_start(found[j]) <= whole_end(
            found[j],
        ),
    decreases j - i,
{
    assert(has_whole(found[i]));
    assert(has_whole(found[j]));
    if i + 1 < j {
        lemma_apart(found, i + 1, j);
        assert(has_whole(found[i + 1]));
        assert(whole_end(found[i]) <= whole_start(found[i + 1]));
    } else {
        assert(whole_end(found[i]) <= whole_start(found[i + 1]));
    }
}

/// What a compiled regular expression was made from: the pattern, and
/// whether the expression matches without regard to case.
pub struct Source {
    pub pattern: Seq<char>,
    pub case_insensitive: bool,
}

/// What `regex_build` made a compiled regular expression from. `None` for an
/// expression that was made in another way.
pub uninterp spec fn regex_source(re: regex::Regex) -> Option<Source>;

/// Whether `regex` compiles `pattern`, with or without regard to case.
pub uninterp spec fn regex_accepts(pattern: Seq<char>, case_insensitive: bool) -> bool;

/// The capture groups of the first match of `pattern` in `haystack`, as
/// `regex` finds it; `None` where there is no match.
pub uninterp spec fn regex_first(
    pattern: Seq<char>,
    case_insensitive: bool,
    haystack: Seq<char>,
) -> Option<Seq<Option<CaptureView>>>;

/// The capture groups of each of the successive matches of `pattern` in
/// `haystack` that do not overlap, from left to right, as `regex` finds them.
pub uninterp spec fn regex_all(
    pattern: Seq<char>,
    case_insensitive: bool,
    haystack: Seq<char>,
) -> Seq<Seq<Option<CaptureView>>>;

/// Compiles `pattern` with `regex::RegexBuilder`: `new`, `case_insensitive`
/// and `build`, and every other setting as the builder has it from the start.
/// Whether that succeeds depends on the pattern and on the flag alone. The
/// compiled expression is made from the two.
#[verifier::external_body]
pub(crate) fn regex_build(pattern: &str, case_insensitive: bool) -> (r: Result<
    regex::Regex,
    regex::Error,
>)
    ensures
        r is Ok == regex_accepts(pattern@, case_insensitive),
        r matches Ok(re) ==> regex_source(re) == Some(
            Source { pattern: pattern@, case_insensitive },
        ),
{
    regex::RegexBuilder::new(pattern).case_insensitive(case_insensitive).build()
}

/// Calls `regex::Regex::captures` and copies each capture group out of what
/// it returns: `start`, `end` and `as_str` of each group that `iter` yields.
/// For an expression that `regex_build` made, the match depends on the
/// pattern, the flag and the text alone. Each group's offsets are in order
/// and inside the text, and its text is the part of the searched text
/// between them.
#[verifier::external_body]
pub(crate) fn regex_captures(re: &regex::Regex, haystack: &str) -> (r: Option<Vec<Option<Capture>>>)
    requires
        regex_source(*re) is Some,
    ensures
        found_view(r) == regex_first(
            regex_source(*re)->0.pattern,
            regex_source(*re)->0.case_insensitive,
            haystack@,
        ),
        r matches Some(groups) ==> captures_in(group_views(groups@), haystack@),
{
    re.captures(haystack).map(
        |found|
            found.iter().map(
                |group|
                    group.map(
                        |m|
                            Capture {
                                start: m.start(),
                                end: m.end(),
                                text: m.as_str().to_string(),
                            },
                    ),
            ).collect(),
    )
}

/// Calls `regex::Regex::captures_iter` and copies each capture group out of
/// each match that it yields, as `regex_captures` does for one match. For an
/// expression that `regex_build` made, the matches depend on the pattern,
/// the flag and the text alone. The iterator yields successive matches that
/// do not overlap: each match has its whole-match group, and the search for
/// the next match starts where the match before it ended.
#[verifier::external_body]
pub(crate) fn regex_captures_all(re: &regex::Regex, haystack: &str) -> (r: Vec<
    Vec<Option<Capture>>,
>)
    requires
        regex_source(*re) is Some,
    ensures
        all_found_view(r@) == regex_all(
            regex_source(*re)->0.pattern,
            regex_source(*re)->0.case_insensitive,
            haystack@,
        ),
        forall|k: int|
            0 <= k < r@.len() ==> captures_in(#[trigger] group_views(r@[k]@), haystack@),
        apart(all_found_view(r@)),
{
    re.captures_iter(haystack).map(
        |found|
            found.iter().map(
                |group|
                    group.map(
                        |m|
                            Capture {
                                start: m.start(),
                                end: m.end(),
                                text: m.as_str().to_string(),
                            },
                    ),
            ).collect(),
    ).collect()
}

} // verus!
