//! Finding a marked comment block, such as `<!-- collect ... -->`, with the
//! `regex` crate.

use regex::Regex;
use vstd::prelude::*;

use crate::span::{is_span, span_text};

verus! {

#[verifier::external_type_specification]
#[verifier::external_body]
pub struct ExRegex(Regex);

/// Whether `regex::Regex::new` accepts `pattern`: it is valid syntax and the
/// compiled program stays within the default size limit.
pub uninterp spec fn regex_accepts(pattern: Seq<char>) -> bool;

/// What `Regex::captures` finds when a regex compiled from `pattern`
/// searches `haystack`: `None` when nothing matches, else the byte span of
/// the leftmost-first match and the byte span of capture group 1, if that
/// group took part in the match.
pub uninterp spec fn regex_first_captures(pattern: Seq<char>, haystack: Seq<char>) -> Option<
    ((usize, usize), Option<(usize, usize)>),
>;

/// A compiled regular expression, together with the pattern it was compiled
/// from. Only `compile_regex` makes one.
pub struct MarkerRegex {
    regex: Regex,
    pattern: Ghost<Seq<char>>,
}

impl MarkerRegex {
    /// The pattern this regex was compiled from.
    pub closed spec fn pattern(&self) -> Seq<char> {
        self.pattern@
    }
}

/// Compiles `pattern` with `regex::Regex::new`, which fails exactly on the
/// patterns that `regex_accepts` rejects; the result remembers `pattern`.
#[verifier::external_body]
pub(crate) fn compile_regex(pattern: &str) -> (res: Option<MarkerRegex>)
    ensures
        res is Some <==> regex_accepts(pattern@),
        res matches Some(r) ==> r.pattern() == pattern@,
{
    match Regex::new(pattern) {
        Ok(regex) => Some(MarkerRegex { regex, pattern: Ghost(pattern@) }),
        Err(_) => None,
    }
}

/// Searches `haystack` with `Regex::captures` and reports the byte spans of
/// the whole match and of group 1. The crate documents that a match's start
/// is at most its end and that both fall on character boundaries of the
/// haystack, so that slicing with them is valid.
#[verifier::external_body]
pub(crate) fn first_captures(re: &MarkerRegex, haystack: &str) -> (res: Option<
    ((usize, usize), Option<(usize, usize)>),
>)
    ensures
        res == regex_first_captures(re.pattern(), haystack@),
        res matches Some(((s, e), g)) ==> is_span(haystack@, s as int, e as int) && (g matches Some(
            (a, b),
        ) ==> is_span(haystack@, a as int, b as int)),
{
    match re.regex.captures(haystack) {
        None => None,
        Some(caps) => {
            let whole = caps.get_match();
            let group = match caps.get(1) {
                Some(g) => Some((g.start(), g.end())),
                None => None,
            };
            Some(((whole.start(), whole.end()), group))
        },
    }
}

/// The marked block that `pattern` finds in `content`: the byte span of the
/// whole comment and the text inside it.
pub open spec fn marked_block(pattern: Seq<char>, content: Seq<char>) -> Option<
    (int, int, Seq<char>),
> {
    match regex_first_captures(pattern, content) {
        Some(((s, e), Some((a, b)))) => Some(
            (s as int, e as int, span_text(content, a as int, b as int)),
        ),
        _ => None,
    }
}

/// The pattern `<!-- ?` + `marker` + `tail` that finds a marked comment;
/// `marker` is spliced in as regex syntax, unescaped.
pub open spec fn marker_pattern(marker: Seq<char>, tail: Seq<char>) -> Seq<char> {
    "<!-- ?"@ + marker + tail
}

/// Builds `marker_pattern(marker, tail)`.
pub fn build_marker_pattern(marker: &str, tail: &str) -> (p: String)
    ensures
        p@ == marker_pattern(marker@, tail@),
{
    let mut p: String = "<!-- ?".to_owned();
    p.append(marker);
    p.append(tail);
    p
}

} // verus!
