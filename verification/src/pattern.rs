//! Compiled path patterns.
//!
//! A [`Path`] wraps a compiled regular expression from the `regex` crate.
//! Matching is unanchored: a pattern matches a request path whenever it
//! matches anywhere inside it, exactly as `regex::Regex::is_match` does.
//! A pattern that should match the whole path only must anchor itself
//! (`^...$`).

use vstd::prelude::*;

verus! {

#[verifier::external_type_specification]
#[verifier::external_body]
pub struct ExRegex(regex::Regex);

/// Whether `regex::Regex::new` accepts `pat` as a pattern. Compilation of a
/// given pattern string (with the crate's default configuration) either
/// always succeeds or always fails, so this is a function of the pattern
/// alone.
pub uninterp spec fn pattern_valid(pat: Seq<char>) -> bool;

/// The pattern string a compiled `regex::Regex` was built from.
/// `regex::Regex::as_str` documents that a compiled regex keeps its original
/// pattern string.
pub uninterp spec fn pattern_of(re: regex::Regex) -> Seq<char>;

/// Whether the pattern `pat` matches somewhere inside `path`. For a fixed
/// pattern and haystack, `regex::Regex::is_match` documents this as "true if
/// and only if there is a match for the regex anywhere in the haystack", a
/// function of the two strings alone.
pub uninterp spec fn pattern_matches(pat: Seq<char>, path: Seq<char>) -> bool;

/// Relies on `regex::Regex::new`: compiling a pattern string with the default
/// configuration succeeds or fails deterministically, and the compiled value
/// keeps the pattern it was built from.
#[verifier::external_body]
fn compile_pattern(pat: &str) -> (r: Option<regex::Regex>)
    ensures
        r is Some <==> pattern_valid(pat@),
        r is Some ==> pattern_of(r->Some_0) == pat@,
{
    regex::Regex::new(pat).ok()
}

/// Relies on `regex::Regex::is_match`: the result depends only on the
/// compiled pattern and the haystack, and is true exactly when the pattern
/// matches anywhere in the haystack.
#[verifier::external_body]
fn regex_is_match(re: &regex::Regex, path: &str) -> (r: bool)
    ensures
        r == pattern_matches(pattern_of(*re), path@),
{
    re.is_match(path)
}

/// Reports whether `path` is a valid pattern string, without building a
/// [`Path`].
pub fn pattern_is_valid(path: &str) -> (r: bool)
    ensures
        r == pattern_valid(path@),
{
    compile_pattern(path).is_some()
}

/// An immutable compiled path pattern. Its view is the pattern string it was
/// compiled from.
pub struct Path {
    regex: regex::Regex,
}

impl View for Path {
    type V = Seq<char>;

    closed spec fn view(&self) -> Seq<char> {
        pattern_of(self.regex)
    }
}

impl Path {
    /// Compiles `path` into a pattern. The caller must know that `path` is a
    /// valid pattern string; an invalid one is a configuration bug and is
    /// ruled out up front, not reported at request time. Callers that cannot
    /// know use [`Path::try_new`].
    pub fn new(path: &str) -> (r: Self)
        requires
            pattern_valid(path@),
        ensures
            r@ == path@,
    {
        match compile_pattern(path) {
            Some(re) => Path { regex: re },
            None => vstd::pervasive::unreached(),
        }
    }

    /// Compiles `path` into a pattern, reporting an invalid pattern string as
    /// `None` instead of requiring validity up front.
    pub fn try_new(path: &str) -> (r: Option<Self>)
        ensures
            r is Some <==> pattern_valid(path@),
            r is Some ==> r->Some_0@ == path@,
    {
        if pattern_is_valid(path) {
            Some(Path::new(path))
        } else {
            None
        }
    }

    /// Whether this pattern matches anywhere inside `path`.
    pub fn matches(&self, path: &str) -> (r: bool)
        ensures
            r == pattern_matches(self@, path@),
    {
        regex_is_match(&self.regex, path)
    }
}

} // verus!
