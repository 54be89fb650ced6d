use vstd::prelude::*;

verus! {

/// Whether `regex::Regex::new` accepts the pattern.
pub uninterp spec fn regex_valid(pattern: Seq<char>) -> bool;

/// Whether the regular expression written as `pattern` matches somewhere in
/// `text`, as `regex::Regex::is_match` decides it.
pub uninterp spec fn regex_matches(pattern: Seq<char>, text: Seq<char>) -> bool;

/// The declaration of `regex::Regex`, so a compiled pattern can be stored.
#[verifier::external_type_specification]
#[verifier::external_body]
pub struct ExRegex(regex::Regex);

/// A compiled regular expression together with the pattern it was built from.
#[derive(Debug)]
pub struct TextPattern {
    pattern: String,
    re: regex::Regex,
}

impl TextPattern {
    /// The pattern this matcher was compiled from.
    pub closed spec fn pattern(&self) -> Seq<char> {
        self.pattern@
    }

    /// Relies on `regex::Regex::new`: compilation succeeds or fails on the
    /// pattern text alone, and the compiled value matches per that pattern.
    #[verifier::external_body]
    pub fn new(pattern: &str) -> (r: Option<TextPattern>)
        ensures
            r is Some <==> regex_valid(pattern@),
            r matches Some(tp) ==> tp.pattern() == pattern@,
    {
        match regex::Regex::new(pattern) {
            Ok(re) => Some(TextPattern { pattern: pattern.to_owned(), re }),
            Err(_) => None,
        }
    }

    /// Relies on `regex::Regex::is_match`: the answer is a function of the
    /// pattern and the text alone.
    #[verifier::external_body]
    pub fn is_match(&self, text: &str) -> (r: bool)
        ensures
            r == regex_matches(self.pattern(), text@),
    {
        self.re.is_match(text)
    }
}

/// The view of an optional borrowed pattern.
pub open spec fn pattern_view(filter: Option<&TextPattern>) -> Option<Seq<char>> {
    match filter {
        Some(p) => Some(p.pattern()),
        None => None,
    }
}

} // verus!
