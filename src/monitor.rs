use vstd::prelude::*;
use crate::classifier::{incoherent, is_incoherent};
use crate::patterns::IgnorePatterns;
use crate::text::push_char;
use crate::word_bank::WordBank;

verus! {

/// Whether `c` is an ASCII decimal digit.
pub open spec fn is_digit(c: char) -> bool {
    '0' <= c && c <= '9'
}

/// The number that a run of decimal digits spells.
pub open spec fn digits_value(s: Seq<char>) -> nat
    decreases s.len(),
{
    if s.len() == 0 {
        0
    } else {
        digits_value(s.drop_last()) * 10 + (s.last() as nat - '0' as nat) as nat
    }
}

/// A field with its one optional leading `+` taken off.
pub open spec fn unsigned_digits(s: Seq<char>) -> Seq<char> {
    if s.len() > 0 && s[0] == '+' {
        s.drop_first()
    } else {
        s
    }
}

/// The user id that a field spells, as an unsigned 64-bit decimal: an optional
/// `+`, then one or more digits, with a value that fits.
pub open spec fn parsed_id(s: Seq<char>) -> Option<u64> {
    let d = unsigned_digits(s);
    if d.len() > 0 && (forall|i: int| 0 <= i < d.len() ==> is_digit(#[trigger] d[i]))
        && digits_value(d) <= u64::MAX {
        Some(digits_value(d) as u64)
    } else {
        None
    }
}

/// Splitting `s` at commas: the fields already closed, and the field being read.
pub open spec fn field_state(s: Seq<char>) -> (Seq<Seq<char>>, Seq<char>)
    decreases s.len(),
{
    if s.len() == 0 {
        (Seq::empty(), Seq::empty())
    } else {
        let (done, cur) = field_state(s.drop_last());
        if s.last() == ',' {
            (done.push(cur), Seq::empty())
        } else {
            (done, cur.push(s.last()))
        }
    }
}

/// The comma-separated fields of `s`; there is always at least one.
pub open spec fn fields_of(s: Seq<char>) -> Seq<Seq<char>> {
    field_state(s).0.push(field_state(s).1)
}

/// The ids of a comma-separated list, in order, each field that is not an id left out.
pub open spec fn user_ids_of(s: Seq<char>) -> Seq<u64> {
    fields_of(s).filter_map(|f: Seq<char>| parsed_id(f))
}

/// Reads one field as an unsigned 64-bit decimal id.
pub fn parse_id(field: &str) -> (r: Option<u64>)
    ensures
        r == parsed_id(field@),
{
    let ghost s = field@;
    let mut value: u64 = 0;
    let mut ok = true;
    let mut seen = false;
    let mut has_digits = false;
    for c in it: field.chars()
        invariant
            it.seq() == s,
            seen == (it.index() > 0),
            has_digits == (unsigned_digits(s.take(it.index() as int)).len() > 0),
            ok == ((forall|i: int|
                0 <= i < unsigned_digits(s.take(it.index() as int)).len() ==> is_digit(
                    #[trigger] unsigned_digits(s.take(it.index() as int))[i],
                )) && digits_value(unsigned_digits(s.take(it.index() as int))) <= u64::MAX),
            ok ==> value == digits_value(unsigned_digits(s.take(it.index() as int))),
    {
        let ghost pre = s.take(it.index() as int);
        let ghost next = s.take(it.index() + 1);
        proof {
            assert(next =~= pre.push(c));
        }
        if !seen && c == '+' {
            proof {
                assert(unsigned_digits(next) =~= Seq::<char>::empty());
                assert(unsigned_digits(pre) =~= Seq::<char>::empty());
            }
        } else {
            let ghost d = unsigned_digits(pre);
            proof {
                assert(unsigned_digits(next) =~= d.push(c));
                assert(d.push(c).drop_last() =~= d);
            }
            has_digits = true;
            if ok {
                if '0' <= c && c <= '9' {
                    let digit = (c as u32 - '0' as u32) as u64;
                    match value.checked_mul(10) {
                        Some(v) => match v.checked_add(digit) {
                            Some(w) => {
                                value = w;
                            },
                            None => {
                                ok = false;
                            },
                        },
                        None => {
                            ok = false;
                            proof {
                                assert(digits_value(d.push(c)) >= digits_value(d) * 10);
                            }
                        },
                    }
                } else {
                    ok = false;
                    proof {
                        assert(!is_digit(d.push(c)[d.len() as int]));
                    }
                }
            } else {
                proof {
                    if forall|i: int| 0 <= i < d.len() ==> is_digit(#[trigger] d[i]) {
                        assert(digits_value(d) > u64::MAX);
                        if is_digit(c) {
                            assert(digits_value(d.push(c)) >= digits_value(d));
                        } else {
                            assert(!is_digit(d.push(c)[d.len() as int]));
                        }
                    } else {
                        let i = choose|i: int| 0 <= i < d.len() && !is_digit(#[trigger] d[i]);
                        assert(d.push(c)[i] == d[i]);
                    }
                }
            }
        }
        seen = true;
    }
    proof {
        assert(s.take(s.len() as int) =~= s);
    }
    if ok && has_digits {
        Some(value)
    } else {
        None
    }
}

/// Reads a comma-separated list of user ids; a field that is not an id is skipped.
pub fn parse_user_ids(list: &str) -> (r: Vec<u64>)
    ensures
        r@ == user_ids_of(list@),
{
    let mut ids: Vec<u64> = Vec::new();
    let mut cur = String::new();
    for c in it: list.chars()
        invariant
            it.seq() == list@,
            field_state(list@.take(it.index() as int)).1 == cur@,
            ids@ == field_state(list@.take(it.index() as int)).0.filter_map(
                |f: Seq<char>| parsed_id(f),
            ),
    {
        let ghost pre = list@.take(it.index() as int);
        let ghost done = field_state(pre).0;
        proof {
            assert(list@.take(it.index() + 1).drop_last() =~= pre);
        }
        if c == ',' {
            let id = parse_id(cur.as_str());
            proof {
                assert(done.push(cur@).drop_last() =~= done);
            }
            if let Some(v) = id {
                ids.push(v);
            }
            cur = String::new();
        } else {
            push_char(&mut cur, c);
        }
    }
    proof {
        assert(list@.take(list@.len() as int) =~= list@);
        let done = field_state(list@).0;
        assert(done.push(cur@).drop_last() =~= done);
    }
    let id = parse_id(cur.as_str());
    if let Some(v) = id {
        ids.push(v);
    }
    ids
}

/// Tells whether `author` is one of the monitored users.
pub fn is_monitored(monitored: &Vec<u64>, author: u64) -> (r: bool)
    ensures
        r == monitored@.contains(author),
{
    for i in 0..monitored.len()
        invariant
            forall|j: int| 0 <= j < i ==> monitored@[j] != author,
    {
        if monitored[i] == author {
            return true;
        }
    }
    false
}

/// Whether a message of `author` with text `content` gets the reaction: the author
/// is monitored and the text is incoherent.
pub open spec fn reacts(
    monitored: Seq<u64>,
    bank: Set<Seq<char>>,
    patterns: Seq<Seq<char>>,
    author: u64,
    content: Seq<char>,
) -> bool {
    monitored.contains(author) && incoherent(bank, patterns, content)
}

/// Decides whether to react to a message; the text of a message whose author is
/// not monitored is not looked at.
pub fn should_react(
    monitored: &Vec<u64>,
    bank: &WordBank,
    patterns: &IgnorePatterns,
    author: u64,
    content: &str,
) -> (r: bool)
    ensures
        r == reacts(monitored@, bank@, patterns@, author, content@),
{
    if !is_monitored(monitored, author) {
        return false;
    }
    is_incoherent(bank, patterns, content)
}

/// A message from an author outside the monitored set never gets the reaction,
/// whatever its text.
pub proof fn lemma_unmonitored_never_reacts(
    monitored: Seq<u64>,
    bank: Set<Seq<char>>,
    patterns: Seq<Seq<char>>,
    author: u64,
    content: Seq<char>,
)
    requires
        !monitored.contains(author),
    ensures
        !reacts(monitored, bank, patterns, author, content),
{
}

} // verus!
