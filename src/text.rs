use vstd::prelude::*;

verus! {

/// The characters that chat markup uses for emphasis and code spans.
pub open spec fn is_marker(c: char) -> bool {
    c == '*' || c == '_' || c == '~' || c == '`'
}

/// The text with every formatting marker removed, the rest kept in order.
pub open spec fn stripped(s: Seq<char>) -> Seq<char> {
    s.filter(|c: char| !is_marker(c))
}

/// Stripping a text that grew by one character.
pub proof fn lemma_stripped_push(s: Seq<char>, c: char)
    ensures
        stripped(s.push(c)) == (if is_marker(c) { stripped(s) } else { stripped(s).push(c) }),
{
    reveal(Seq::filter);
    assert(s.push(c).drop_last() =~= s);
}

/// `s` without any occurrence of the character `m`.
pub open spec fn without(s: Seq<char>, m: char) -> Seq<char> {
    s.filter(other_than(m))
}

/// The test that keeps every character but `m`.
pub open spec fn other_than(m: char) -> spec_fn(char) -> bool {
    |c: char| c != m
}

/// Filtering twice keeps what both predicates keep.
proof fn lemma_filter_twice(s: Seq<char>, p: spec_fn(char) -> bool, q: spec_fn(char) -> bool)
    ensures
        s.filter(p).filter(q) == s.filter(|c: char| p(c) && q(c)),
    decreases s.len(),
{
    reveal(Seq::filter);
    if s.len() > 0 {
        lemma_filter_twice(s.drop_last(), p, q);
        let sub = s.drop_last().filter(p);
        assert(sub.push(s.last()).drop_last() =~= sub);
    }
}

/// Removing the formatting markers a second time changes nothing.
pub proof fn lemma_strip_idempotent(s: Seq<char>)
    ensures
        stripped(stripped(s)) == stripped(s),
{
    let keep = |c: char| !is_marker(c);
    lemma_filter_twice(s, keep, keep);
    assert((|c: char| keep(c) && keep(c)) =~= keep);
}

/// The markers may be removed one kind at a time, in any order: removing two
/// kinds commutes, removing one kind before or after stripping all of them changes
/// nothing, and removing the four kinds one after another is stripping.
pub proof fn lemma_strip_order_independent(s: Seq<char>, a: char, b: char)
    requires
        is_marker(a),
        is_marker(b),
    ensures
        without(without(s, a), b) == without(without(s, b), a),
        stripped(without(s, a)) == stripped(s),
        without(stripped(s), a) == stripped(s),
        without(without(without(without(s, '*'), '_'), '~'), '`') == stripped(s),
{
    let not_a = other_than(a);
    let not_b = other_than(b);
    let keep = |c: char| !is_marker(c);
    lemma_filter_twice(s, not_a, not_b);
    lemma_filter_twice(s, not_b, not_a);
    let ab = |c: char| not_a(c) && not_b(c);
    let ba = |c: char| not_b(c) && not_a(c);
    assert(ab =~= ba);
    assert(s.filter(ab) == s.filter(ba));
    lemma_filter_twice(s, not_a, keep);
    let a_keep = |c: char| not_a(c) && keep(c);
    assert(a_keep =~= keep);
    assert(s.filter(a_keep) == s.filter(keep));

    lemma_filter_twice(s, keep, not_a);
    assert((|c: char| keep(c) && not_a(c)) =~= keep);
    let n1 = other_than('*');
    let n2 = other_than('_');
    let n3 = other_than('~');
    let n4 = other_than('`');
    lemma_filter_twice(s, n1, n2);
    let n12 = |c: char| n1(c) && n2(c);
    lemma_filter_twice(s, n12, n3);
    let n123 = |c: char| n12(c) && n3(c);
    lemma_filter_twice(s, n123, n4);
    assert((|c: char| n123(c) && n4(c)) =~= keep);
}

/// A text without markers is left as it is.
pub proof fn lemma_strip_unmarked(s: Seq<char>)
    requires
        forall|i: int| 0 <= i < s.len() ==> !is_marker(#[trigger] s[i]),
    ensures
        stripped(s) == s,
    decreases s.len(),
{
    reveal(Seq::filter);
    if s.len() > 0 {
        lemma_strip_unmarked(s.drop_last());
        assert(s.drop_last().push(s.last()) =~= s);
    }
}

/// Stripping keeps every whitespace character.
pub proof fn lemma_strip_keeps_whitespace(s: Seq<char>)
    requires
        has_ws(s),
    ensures
        has_ws(stripped(s)),
{
    let i = choose|i: int| 0 <= i < s.len() && is_ws(#[trigger] s[i]);
    s.lemma_filter_contains(|c: char| !is_marker(c), i);
    let t = stripped(s);
    let j = choose|j: int| 0 <= j < t.len() && t[j] == s[i];
    assert(is_ws(t[j]));
}

/// Appends one character to a string.
/// Relies on String::push: the string afterwards is the old one followed by `c`.
#[verifier::external_body]
pub(crate) fn push_char(s: &mut String, c: char)
    ensures
        final(s)@ == old(s)@.push(c),
{
    s.push(c);
}

/// Removes the formatting markers `*`, `_`, `~` and the backtick.
pub fn strip_formatting(content: &str) -> (r: String)
    ensures
        r@ == stripped(content@),
{
    let mut out = String::new();
    for c in it: content.chars()
        invariant
            it.seq() == content@,
            out@ == stripped(it.seq().take(it.index() as int)),
    {
        if !(c == '*' || c == '_' || c == '~' || c == '`') {
            push_char(&mut out, c);
        }
        proof {
            let pre = it.seq().take(it.index() as int);
            let s2 = pre.push(c);
            lemma_stripped_push(pre, c);
            assert(it.seq().take(it.index() + 1) =~= s2);
        }
    }
    proof {
        assert(content@.take(content@.len() as int) =~= content@);
    }
    out
}

/// The Unicode `White_Space` characters, as `char::is_whitespace` knows them.
pub open spec fn is_ws(c: char) -> bool {
    ('\u{9}' <= c && c <= '\u{d}') || c == ' ' || c == '\u{85}' || c == '\u{a0}'
        || c == '\u{1680}' || ('\u{2000}' <= c && c <= '\u{200a}') || c == '\u{2028}'
        || c == '\u{2029}' || c == '\u{202f}' || c == '\u{205f}' || c == '\u{3000}'
}

/// Tells whether `c` is a whitespace character.
pub fn is_whitespace_char(c: char) -> (r: bool)
    ensures
        r == is_ws(c),
{
    ('\u{9}' <= c && c <= '\u{d}') || c == ' ' || c == '\u{85}' || c == '\u{a0}'
        || c == '\u{1680}' || ('\u{2000}' <= c && c <= '\u{200a}') || c == '\u{2028}'
        || c == '\u{2029}' || c == '\u{202f}' || c == '\u{205f}' || c == '\u{3000}'
}

/// Whether any character of `s` is whitespace.
pub open spec fn has_ws(s: Seq<char>) -> bool {
    exists|i: int| 0 <= i < s.len() && is_ws(#[trigger] s[i])
}

/// Tells whether `text` holds a whitespace character.
pub fn contains_whitespace(text: &str) -> (r: bool)
    ensures
        r == has_ws(text@),
{
    let mut found = false;
    for c in it: text.chars()
        invariant
            it.seq() == text@,
            found == (exists|i: int| 0 <= i < it.index() && is_ws(#[trigger] text@[i])),
    {
        if is_whitespace_char(c) {
            found = true;
        }
    }
    found
}

/// Tells whether `text` has at least `n` characters.
pub fn has_at_least_chars(text: &str, n: usize) -> (r: bool)
    ensures
        r == (text@.len() >= n),
{
    let mut count: usize = 0;
    for c in it: text.chars()
        invariant
            it.seq() == text@,
            count == (if it.index() < n { it.index() as int } else { n as int }),
    {
        if count < n {
            count = count + 1;
        }
    }
    count == n
}

/// What lower-casing makes of a text.
pub uninterp spec fn lower_of(s: Seq<char>) -> Seq<char>;

/// Lower-cases a text.
/// Relies on str::to_lowercase, whose result depends on the characters alone.
#[verifier::external_body]
pub(crate) fn to_lower(s: &str) -> (r: String)
    ensures
        r@ == lower_of(s@),
{
    s.to_lowercase()
}

/// The text that the classifier judges: lower-cased, then stripped of markers.
pub open spec fn normalized(s: Seq<char>) -> Seq<char> {
    stripped(lower_of(s))
}

/// Lower-cases `content` and removes its formatting markers.
pub fn normalize(content: &str) -> (r: String)
    ensures
        r@ == normalized(content@),
{
    let lowered = to_lower(content);
    strip_formatting(lowered.as_str())
}

} // verus!
