use vstd::prelude::*;

verus! {

#[verifier::external_type_specification]
#[verifier::external_body]
pub struct ExRegex(regex::Regex);

#[verifier::external_type_specification]
#[verifier::external_body]
pub struct ExRegexError(regex::Error);

/// Whether the regular expression written as `pattern` matches somewhere in `text`.
pub uninterp spec fn regex_matches(pattern: Seq<char>, text: Seq<char>) -> bool;

/// Whether `pattern` is a regular expression that can be compiled, under the
/// default settings and size limit.
pub uninterp spec fn regex_compiles(pattern: Seq<char>) -> bool;

/// Compiles a regular expression.
/// Relies on regex::Regex::new, which returns an error for a pattern it cannot build;
/// whether it can depends on the pattern text alone.
#[verifier::external_body]
fn compile(source: &str) -> (r: Result<regex::Regex, regex::Error>)
    ensures
        r is Ok == regex_compiles(source@),
{
    regex::Regex::new(source)
}

/// A compiled regular expression that remembers the text it was compiled from.
pub struct IgnorePattern {
    source: String,
    regex: regex::Regex,
}

/// Why a pattern could not be used.
#[derive(Debug, PartialEq, Eq, Structural)]
pub enum PatternError {
    /// The pattern is not a regular expression that could be compiled.
    Invalid,
}

impl View for IgnorePattern {
    type V = Seq<char>;

    /// The source text of the pattern.
    closed spec fn view(&self) -> Seq<char> {
        self.source@
    }
}

/// Tests a compiled pattern against a text.
/// Relies on regex::Regex::is_match: whether the expression matches anywhere in the
/// text. `p.regex` was compiled from `p.source` by `IgnorePattern::new`, the only
/// place that builds an `IgnorePattern`.
#[verifier::external_body]
fn regex_is_match(p: &IgnorePattern, text: &str) -> (r: bool)
    ensures
        r == regex_matches(p@, text@),
{
    p.regex.is_match(text)
}

impl IgnorePattern {
    /// Compiles `source` into a pattern.
    pub fn new(source: &str) -> (r: Result<IgnorePattern, PatternError>)
        ensures
            r is Ok == regex_compiles(source@),
            r matches Ok(p) ==> p@ == source@,
    {
        match compile(source) {
            Ok(regex) => Ok(IgnorePattern { source: source.to_owned(), regex }),
            Err(_) => Err(PatternError::Invalid),
        }
    }

    /// Whether the pattern matches somewhere in `text`.
    pub fn is_match(&self, text: &str) -> (r: bool)
        ensures
            r == regex_matches(self@, text@),
    {
        regex_is_match(self, text)
    }
}

/// Whether some pattern of `patterns` matches `text`.
pub open spec fn matches_any(patterns: Seq<Seq<char>>, text: Seq<char>) -> bool {
    exists|i: int| 0 <= i < patterns.len() && regex_matches(#[trigger] patterns[i], text)
}

/// Whole-word runs of the laughter letters h, u and e.
pub const HUE_LAUGH: &'static str = "^[hue]{5,}$";
/// Whole-word runs of the laughter letters b, h and a.
pub const BHA_LAUGH: &'static str = "^[bha]{5,}$";
/// Whole-word runs of the letters l and o.
pub const LOL_RUN: &'static str = "^[lo]{5,}$";
/// Web links.
pub const URL_PREFIX: &'static str = "^https?://";
/// "re" followed by five or more e's.
pub const REE_PREFIX: &'static str = "^re{5,}";
/// A custom emoji tag, `<:name:id>`.
pub const EMOJI_TAG: &'static str = "^<:\\w+:\\d+>$";

/// The sources of the fixed ignore patterns, in the order they are tried.
pub open spec fn standard_sources() -> Seq<Seq<char>> {
    seq![HUE_LAUGH@, BHA_LAUGH@, LOL_RUN@, URL_PREFIX@, REE_PREFIX@, EMOJI_TAG@]
}

/// An ordered list of patterns; text that one of them matches is never flagged.
pub struct IgnorePatterns {
    patterns: Vec<IgnorePattern>,
}

impl View for IgnorePatterns {
    type V = Seq<Seq<char>>;

    closed spec fn view(&self) -> Seq<Seq<char>> {
        self.patterns@.map_values(|p: IgnorePattern| p@)
    }
}

impl IgnorePatterns {
    /// Compiles the given sources, in order.
    pub fn from_sources(sources: &Vec<&str>) -> (r: Result<IgnorePatterns, PatternError>)
        ensures
            r is Ok == (forall|i: int|
                0 <= i < sources@.len() ==> regex_compiles(#[trigger] sources@[i]@)),
            r matches Ok(ps) ==> ps@ == sources@.map_values(|s: &str| s@),
    {
        let mut patterns: Vec<IgnorePattern> = Vec::new();
        for i in 0..sources.len()
            invariant
                patterns@.map_values(|p: IgnorePattern| p@) =~= sources@.take(i as int).map_values(|s: &str| s@),
                forall|j: int| 0 <= j < i ==> regex_compiles(#[trigger] sources@[j]@),
        {
            let p = match IgnorePattern::new(sources[i]) {
                Ok(p) => p,
                Err(e) => {
                    return Err(e);
                },
            };
            let ghost before = patterns@;
            patterns.push(p);
            proof {
                assert(sources@.take(i + 1) =~= sources@.take(i as int).push(sources@[i as int]));
                assert(patterns@ =~= before.push(p));
                assert(patterns@.map_values(|p: IgnorePattern| p@) =~= before.map_values(
                    |p: IgnorePattern| p@,
                ).push(p@));
                assert(sources@.take(i + 1).map_values(|s: &str| s@) =~= sources@.take(
                    i as int,
                ).map_values(|s: &str| s@).push(sources@[i as int]@));
            }
        }
        proof {
            assert(sources@.take(sources@.len() as int) =~= sources@);
        }
        Ok(IgnorePatterns { patterns })
    }

    /// The fixed patterns: laughter, "lol" runs, links, "reee" and emoji tags.
    pub fn standard() -> (r: Result<IgnorePatterns, PatternError>)
        ensures
            r is Ok == (forall|i: int|
                0 <= i < standard_sources().len() ==> regex_compiles(
                    #[trigger] standard_sources()[i],
                )),
            r matches Ok(ps) ==> ps@ == standard_sources(),
    {
        let sources = vec![HUE_LAUGH, BHA_LAUGH, LOL_RUN, URL_PREFIX, REE_PREFIX, EMOJI_TAG];
        let r = IgnorePatterns::from_sources(&sources);
        proof {
            assert(sources@.map_values(|s: &str| s@) =~= standard_sources());
        }
        r
    }

    /// Whether some pattern matches `text`; the patterns are tried in order and
    /// the first match ends the search.
    pub fn any_match(&self, text: &str) -> (r: bool)
        ensures
            r == matches_any(self@, text@),
    {
        for i in 0..self.patterns.len()
            invariant
                self@.len() == self.patterns.len(),
                forall|j: int| 0 <= j < i ==> !regex_matches(#[trigger] self@[j], text@),
        {
            proof {
                assert(self@[i as int] == self.patterns@[i as int]@);
            }
            if self.patterns[i].is_match(text) {
                return true;
            }
        }
        false
    }
}

} // verus!
