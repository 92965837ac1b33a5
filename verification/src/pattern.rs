//! Regular expressions (regex crate) over plain strings.
use regex::Regex;
use vstd::prelude::*;

verus! {

/// The regex crate's compiled expression, carried opaquely.
#[verifier::external_type_specification]
#[verifier::external_body]
pub struct ExRegex(Regex);

/// Whether `Regex::new` accepts the pattern.
pub uninterp spec fn regex_compiles(pattern: Seq<char>) -> bool;

/// `Regex::replace_all` of the compiled `pattern` on `text`, with replacement `rep`
/// (where `$name` and `${name}` refer to capture groups).
pub uninterp spec fn regex_replace_all(pattern: Seq<char>, text: Seq<char>, rep: Seq<char>) -> Seq<char>;

/// `Regex::replace` (leftmost match only) of the compiled `pattern` on `text`, with replacement `rep`.
pub uninterp spec fn regex_replace_first(pattern: Seq<char>, text: Seq<char>, rep: Seq<char>) -> Seq<char>;

/// A compiled regular expression together with its pattern text.
pub struct Pattern {
    source: String,
    re: Regex,
}

impl View for Pattern {
    type V = Seq<char>;

    closed spec fn view(&self) -> Seq<char> {
        self.source@
    }
}

impl Pattern {
    /// Compiles `pattern` (`Regex::new`); `None` when the pattern is rejected.
    #[verifier::external_body]
    pub(crate) fn compile(pattern: &str) -> (r: Option<Pattern>)
        ensures
            r is Some == regex_compiles(pattern@),
            r matches Some(p) ==> p@ == pattern@,
    {
        Regex::new(pattern).ok().map(|re| Pattern { source: pattern.to_string(), re })
    }

    /// Replaces every non-overlapping match in `text` (`Regex::replace_all`).
    #[verifier::external_body]
    pub(crate) fn replace_all(&self, text: &str, rep: &str) -> (r: String)
        ensures
            r@ == regex_replace_all(self@, text@, rep@),
    {
        self.re.replace_all(text, rep).into_owned()
    }

    /// Replaces the leftmost match in `text` (`Regex::replace`).
    #[verifier::external_body]
    pub(crate) fn replace_first(&self, text: &str, rep: &str) -> (r: String)
        ensures
            r@ == regex_replace_first(self@, text@, rep@),
    {
        self.re.replace(text, rep).into_owned()
    }
}

} // verus!
