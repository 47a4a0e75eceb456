use vstd::prelude::*;
use vstd::hash_set::StringHashSet;
use crate::text::{is_ws, is_whitespace_char, push_char};

verus! {

/// Splitting `s` at whitespace, one character at a time: the words already
/// closed, and the word still being read.
pub open spec fn split_state(s: Seq<char>) -> (Seq<Seq<char>>, Seq<char>)
    decreases s.len(),
{
    if s.len() == 0 {
        (Seq::empty(), Seq::empty())
    } else {
        let (done, cur) = split_state(s.drop_last());
        let c = s.last();
        if is_ws(c) {
            if cur.len() > 0 {
                (done.push(cur), Seq::empty())
            } else {
                (done, cur)
            }
        } else {
            (done, cur.push(c))
        }
    }
}

/// The maximal runs of non-whitespace characters of `s`, in order.
pub open spec fn words_of(s: Seq<char>) -> Seq<Seq<char>> {
    let (done, cur) = split_state(s);
    if cur.len() > 0 {
        done.push(cur)
    } else {
        done
    }
}

/// The dictionary: a set of known words, looked up exactly.
pub struct WordBank {
    words: StringHashSet,
}

impl View for WordBank {
    type V = Set<Seq<char>>;

    closed spec fn view(&self) -> Set<Seq<char>> {
        self.words@
    }
}

impl WordBank {
    /// Builds the bank from a word list whose entries are separated by whitespace.
    pub fn from_text(text: &str) -> (r: WordBank)
        ensures
            r@ == words_of(text@).to_set(),
    {
        let mut words = StringHashSet::new();
        let mut cur = String::new();
        for c in it: text.chars()
            invariant
                it.seq() == text@,
                (words@, cur@) == ({
                    let st = split_state(text@.take(it.index() as int));
                    (st.0.to_set(), st.1)
                }),
        {
            let ghost pre = text@.take(it.index() as int);
            proof {
                assert(text@.take(it.index() + 1).drop_last() =~= pre);
            }
            if is_whitespace_char(c) {
                if !cur.as_str().is_empty() {
                    let ghost done = split_state(pre).0;
                    words.insert(cur);
                    cur = String::new();
                    proof {
                        done.lemma_push_to_set_commute(split_state(pre).1);
                    }
                }
            } else {
                push_char(&mut cur, c);
            }
        }
        proof {
            assert(text@.take(text@.len() as int) =~= text@);
        }
        if !cur.as_str().is_empty() {
            let ghost done = split_state(text@).0;
            words.insert(cur);
            proof {
                done.lemma_push_to_set_commute(split_state(text@).1);
            }
        }
        WordBank { words }
    }

    /// Whether `word` is, exactly, an entry of the bank.
    pub fn contains(&self, word: &str) -> (r: bool)
        ensures
            r == self@.contains(word@),
    {
        self.words.contains(word)
    }
}

} // verus!
