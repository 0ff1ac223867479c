use vstd::prelude::*;

verus! {

/// Whether a code point belongs to the Han script, as the Unicode script
/// property defines it.  The answer depends on the character alone and is
/// the same in every process; the regex crate's Unicode tables decide it.
pub uninterp spec fn is_han_char(c: char) -> bool;

#[verifier::external_type_specification]
#[verifier::external_body]
pub struct ExRegex(regex::Regex);

/// A compiled matcher for Han-script characters.  The field is private and
/// the one constructor compiles the fixed Han-script pattern, so every
/// value of this type holds that pattern.
pub struct HanMatcher {
    compiled_regex_kanji: regex::Regex,
}

impl HanMatcher {
    /// Relies on regex::Regex::new: the fixed pattern is valid, so the
    /// compilation it documents as failing only on invalid or oversized
    /// patterns succeeds.
    #[verifier::external_body]
    pub fn new() -> (matcher: HanMatcher) {
        HanMatcher { compiled_regex_kanji: regex::Regex::new(r"\p{Script=Han}+").unwrap() }
    }

    /// Relies on regex::Regex::is_match: the stored Han-script pattern
    /// matches somewhere in a one-character haystack exactly when that
    /// character has the Han script property.
    #[verifier::external_body]
    pub fn is_han(&self, c: char) -> (r: bool)
        ensures
            r == is_han_char(c),
    {
        let mut buf = [0u8; 4];
        self.compiled_regex_kanji.is_match(c.encode_utf8(&mut buf))
    }
}

} // verus!
