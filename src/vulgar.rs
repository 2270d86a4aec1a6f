//! Entries for the process-wide vocabulary and their validation.
use vstd::prelude::*;
use crate::error::Error;

verus! {

#[verifier::external_type_specification]
#[verifier::external_body]
pub struct ExType(rustrict::Type);

/// A word for the vocabulary together with its severity category.
#[derive(Default, Debug, PartialEq, Eq)]
pub struct Vulgar {
    pub word: String,
    pub word_type: rustrict::Type,
}

/// Relies on `Default` for rustrict's `Type`: the category that a word gets
/// when its entry names none.
#[verifier::external_body]
fn default_type() -> (r: rustrict::Type) {
    rustrict::Type::default()
}

impl Vulgar {
    /// An entry for `word`, with the default category when `word_type` is `None`.
    pub fn new(word: String, word_type: Option<rustrict::Type>) -> (r: Self)
        ensures
            r.word@ == word@,
            word_type matches Some(t) ==> r.word_type == t,
    {
        let word_type = match word_type {
            Some(t) => t,
            None => default_type(),
        };
        Vulgar { word, word_type }
    }
}

/// Every entry has a non-empty word.
pub open spec fn all_words_present(vulgars: Seq<Vulgar>) -> bool {
    forall|i: int| 0 <= i < vulgars.len() ==> (#[trigger] vulgars[i]).word@.len() > 0
}

/// Checks a batch of entries before any of them is registered: the batch is
/// refused with `EmptyWord` when one of its words is empty.
pub fn check_words(vulgars: &Vec<Vulgar>) -> (r: Result<(), Error>)
    ensures
        r is Ok <==> all_words_present(vulgars@),
        r matches Err(e) ==> e == Error::EmptyWord,
{
    let mut i: usize = 0;
    while i < vulgars.len()
        invariant
            i <= vulgars.len(),
            forall|j: int| 0 <= j < i ==> (#[trigger] vulgars@[j]).word@.len() > 0,
        decreases vulgars.len() - i,
    {
        if vulgars[i].word.as_str().is_empty() {
            return Err(Error::EmptyWord);
        }
        i = i + 1;
    }
    Ok(())
}

} // verus!
