use vstd::prelude::*;
use crate::patterns::{matches_any, standard_sources, IgnorePatterns};
use crate::text::{
    contains_whitespace, has_at_least_chars, has_ws, is_marker, lower_of, normalize, normalized,
    stripped,
};
use crate::word_bank::WordBank;

verus! {

/// Texts shorter than this, in characters, are too short to judge.
pub const MINIMUM_MESSAGE_LENGTH: usize = 8;

/// Whether an already normalized text is judged incoherent: a single word,
/// long enough, not in the dictionary, and matched by no ignore pattern.
pub open spec fn judged_incoherent(
    bank: Set<Seq<char>>,
    patterns: Seq<Seq<char>>,
    text: Seq<char>,
) -> bool {
    &&& !has_ws(text)
    &&& text.len() >= MINIMUM_MESSAGE_LENGTH
    &&& !bank.contains(text)
    &&& !matches_any(patterns, text)
}

/// Whether a message text is incoherent: its normalized form is judged so.
pub open spec fn incoherent(
    bank: Set<Seq<char>>,
    patterns: Seq<Seq<char>>,
    content: Seq<char>,
) -> bool {
    judged_incoherent(bank, patterns, normalized(content))
}

/// Judges a text that is already lower-cased and free of formatting markers.
/// The checks run from the cheapest on, and the first that clears the text ends it.
pub fn judge_normalized(bank: &WordBank, patterns: &IgnorePatterns, text: &str) -> (r: bool)
    ensures
        r == judged_incoherent(bank@, patterns@, text@),
{
    if contains_whitespace(text) {
        return false;
    }
    if !has_at_least_chars(text, MINIMUM_MESSAGE_LENGTH) {
        return false;
    }
    if bank.contains(text) {
        return false;
    }
    !patterns.any_match(text)
}

/// Classifies a message text: true when it looks like keyboard mashing or gibberish.
pub fn is_incoherent(bank: &WordBank, patterns: &IgnorePatterns, content: &str) -> (r: bool)
    ensures
        r == incoherent(bank@, patterns@, content@),
{
    let text = normalize(content);
    judge_normalized(bank, patterns, text.as_str())
}

/// A message whose lower-cased text holds whitespace is never incoherent:
/// stripping markers keeps every whitespace character.
pub proof fn lemma_whitespace_is_coherent(
    bank: Set<Seq<char>>,
    patterns: Seq<Seq<char>>,
    content: Seq<char>,
)
    requires
        has_ws(lower_of(content)),
    ensures
        !incoherent(bank, patterns, content),
{
    crate::text::lemma_strip_keeps_whitespace(lower_of(content));
}

/// A message whose normalized text is shorter than the minimum is never incoherent.
pub proof fn lemma_short_is_coherent(
    bank: Set<Seq<char>>,
    patterns: Seq<Seq<char>>,
    content: Seq<char>,
)
    requires
        normalized(content).len() < MINIMUM_MESSAGE_LENGTH,
    ensures
        !incoherent(bank, patterns, content),
{
}

/// A message that lower-cases to a dictionary entry free of markers is never
/// incoherent.
pub proof fn lemma_dictionary_word_is_coherent(
    bank: Set<Seq<char>>,
    patterns: Seq<Seq<char>>,
    content: Seq<char>,
    word: Seq<char>,
)
    requires
        bank.contains(word),
        lower_of(content) == word,
        forall|k: int| 0 <= k < word.len() ==> !is_marker(#[trigger] word[k]),
    ensures
        !incoherent(bank, patterns, content),
{
    crate::text::lemma_strip_unmarked(word);
}

/// A message whose normalized text one of the fixed ignore patterns matches is
/// never incoherent.
pub proof fn lemma_ignored_is_coherent(
    bank: Set<Seq<char>>,
    content: Seq<char>,
    i: int,
)
    requires
        0 <= i < standard_sources().len(),
        crate::patterns::regex_matches(standard_sources()[i], normalized(content)),
    ensures
        !incoherent(bank, standard_sources(), content),
{
}

} // verus!
