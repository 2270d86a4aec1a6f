//! Compiled patterns and the masking pass that applies one of them.
use vstd::prelude::*;
use crate::error::Error;
use crate::mask::{mask_chars, mask_spans, spans_ok};
use crate::text::{chars_of, string_of};

verus! {

#[verifier::external_type_specification]
#[verifier::external_body]
pub struct ExRegex(regex::Regex);

/// Whether `regex::Regex::new` accepts `pattern`.
pub uninterp spec fn pattern_compiles(pattern: Seq<char>) -> bool;

/// The byte spans of the matches of `pattern` in `text`, in the order in
/// which `regex::Regex::find_iter` reports them.
pub uninterp spec fn match_spans(pattern: Seq<char>, text: Seq<char>) -> Seq<(usize, usize)>;

/// `text` after one masking pass of `pattern`: every match found in `text`
/// is replaced by as many mask characters as it has characters.
pub open spec fn mask_pass(text: Seq<char>, pattern: Seq<char>) -> Seq<char> {
    mask_spans(text, match_spans(pattern, text))
}

/// Relies on regex::Regex::new: whether it succeeds depends on the pattern
/// alone. Its error carries nothing that redaction reports, so only whether
/// it failed is kept.
#[verifier::external_body]
fn compile_regex(pattern: &str) -> (r: Option<regex::Regex>)
    ensures
        r is Some <==> pattern_compiles(pattern@),
{
    regex::Regex::new(pattern).ok()
}

/// A pattern together with its compiled form. Both fields are set from the
/// same string by `Matcher::compile` and never change afterwards.
pub struct Matcher {
    pattern: String,
    regex: regex::Regex,
}

impl View for Matcher {
    type V = Seq<char>;

    closed spec fn view(&self) -> Seq<char> {
        self.pattern@
    }
}

impl Matcher {
    /// Compiles `pattern`; a pattern that does not compile is `InvalidRegex`.
    pub fn compile(pattern: &str) -> (r: Result<Matcher, Error>)
        ensures
            r is Ok <==> pattern_compiles(pattern@),
            r matches Ok(m) ==> m@ == pattern@,
            r matches Err(e) ==> e == Error::InvalidRegex,
    {
        match compile_regex(pattern) {
            Some(regex) => Ok(Matcher { pattern: pattern.to_owned(), regex }),
            None => Err(Error::InvalidRegex),
        }
    }

    /// Relies on regex::Regex::find_iter over the regex compiled from
    /// `self.pattern`: it yields successive non-overlapping matches, each
    /// with `start <= end`, both offsets on character boundaries of `text`.
    #[verifier::external_body]
    fn find_spans(&self, text: &str) -> (r: Vec<(usize, usize)>)
        ensures
            r@ == match_spans(self@, text@),
            spans_ok(text@, r@),
    {
        self.regex.find_iter(text).map(|m| (m.start(), m.end())).collect()
    }
}

/// One masking pass: every match of `matcher` in `sentence`, all found in the
/// text as it was before the pass, is replaced by a run of mask characters of
/// the same length in characters; nothing else changes.
pub fn regex_censor(sentence: &mut String, matcher: &Matcher)
    ensures
        final(sentence)@ == mask_pass(old(sentence)@, matcher@),
{
    let spans = matcher.find_spans(sentence.as_str());
    let chars = chars_of(sentence.as_str());
    let masked = mask_chars(&chars, &spans);
    *sentence = string_of(&masked);
}

} // verus!
