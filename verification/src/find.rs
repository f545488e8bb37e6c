//! Search for a pattern in the bytes of a text.

use vstd::prelude::*;
use crate::buffer::is_word_byte;
use crate::buffer::byte_is_word;

verus! {

/// Whether `pattern` stands in `text` at offset `at`.
pub open spec fn occurs_at(text: Seq<u8>, pattern: Seq<u8>, at: int) -> bool {
    0 <= at && at + pattern.len() <= text.len() && text.subrange(at, at + pattern.len())
        == pattern
}

/// Whether what stands at `at` with length `len` is a word of its own: no
/// byte of a word stands in front of it or behind it.
pub open spec fn whole_word_at(text: Seq<u8>, at: int, len: int) -> bool {
    (at <= 0 || at > text.len() || !is_word_byte(text[at - 1])) && (at + len < 0 || at + len
        >= text.len() || !is_word_byte(text[at + len]))
}

/// Whether the search accepts the offset `at`.
pub open spec fn found_at(text: Seq<u8>, pattern: Seq<u8>, whole_words: bool, at: int) -> bool {
    pattern.len() > 0 && occurs_at(text, pattern, at) && (!whole_words || whole_word_at(
        text,
        at,
        pattern.len() as int,
    ))
}

/// The first offset from `from` on, and before `to`, that the search accepts.
pub open spec fn first_found(
    text: Seq<u8>,
    pattern: Seq<u8>,
    whole_words: bool,
    from: int,
    to: int,
) -> Option<int>
    decreases to - from,
{
    if from < 0 || from >= to {
        None
    } else if found_at(text, pattern, whole_words, from) {
        Some(from)
    } else {
        first_found(text, pattern, whole_words, from + 1, to)
    }
}

/// The last offset before `to`, and not before `from`, that the search accepts.
pub open spec fn last_found(
    text: Seq<u8>,
    pattern: Seq<u8>,
    whole_words: bool,
    from: int,
    to: int,
) -> Option<int>
    decreases to - from,
{
    if from < 0 || from >= to {
        None
    } else if found_at(text, pattern, whole_words, to - 1) {
        Some(to - 1)
    } else {
        last_found(text, pattern, whole_words, from, to - 1)
    }
}

/// The offset that a search from `offset` finds. Forward it is the first
/// match behind `offset`, backward the last match in front of it. With
/// `wrap`, a search that finds nothing goes on from the other end of the text.
pub open spec fn search_result(
    text: Seq<u8>,
    pattern: Seq<u8>,
    whole_words: bool,
    offset: int,
    reverse: bool,
    wrap: bool,
) -> Option<int> {
    let n = text.len() as int;
    if reverse {
        match last_found(text, pattern, whole_words, 0, vstd::math::min(offset, n)) {
            Some(i) => Some(i),
            None => if wrap {
                last_found(text, pattern, whole_words, 0, n)
            } else {
                None
            },
        }
    } else {
        match first_found(text, pattern, whole_words, offset + 1, n) {
            Some(i) => Some(i),
            None => if wrap {
                first_found(text, pattern, whole_words, 0, n)
            } else {
                None
            },
        }
    }
}

/// What is searched for, and whether matches are shown.
#[derive(Debug)]
pub struct Find {
    pub visual: bool,
    pub pattern: Vec<u8>,
    pub case_sensitive: bool,
    pub whole_words: bool,
}

impl Find {
    pub fn new() -> (f: Find)
        ensures
            !f.visual,
            f.pattern@.len() == 0,
            !f.whole_words,
    {
        Find { visual: false, pattern: Vec::new(), case_sensitive: false, whole_words: false }
    }

    /// Sets what is searched for.
    pub fn set_find(&mut self, pattern: &Vec<u8>, case_sensitive: bool, whole_words: bool)
        ensures
            final(self).pattern@ == pattern@,
            final(self).case_sensitive == case_sensitive,
            final(self).whole_words == whole_words,
            final(self).visual == old(self).visual,
    {
        self.pattern = pattern.clone();
        self.case_sensitive = case_sensitive;
        self.whole_words = whole_words;
    }

    /// Whether the search accepts the offset `at` of `text`.
    pub fn matches_at(&self, text: &Vec<u8>, at: usize) -> (r: bool)
        ensures
            r == found_at(text@, self.pattern@, self.whole_words, at as int),
    {
        let m = self.pattern.len();
        let n = text.len();
        if m == 0 || at > n || m > n - at {
            return false;
        }
        let mut k: usize = 0;
        while k < m
            invariant
                k <= m,
                m == self.pattern@.len(),
                n == text@.len(),
                at + m <= n,
                text@.subrange(at as int, at + k) == self.pattern@.subrange(0, k as int),
            decreases m - k,
        {
            if text[at + k] != self.pattern[k] {
                assert(text@.subrange(at as int, at + m)[k as int] != self.pattern@[k as int]);
                return false;
            }
            assert(text@.subrange(at as int, at + k + 1) =~= text@.subrange(
                at as int,
                at + k,
            ).push(text@[at + k]));
            assert(self.pattern@.subrange(0, k + 1) =~= self.pattern@.subrange(0, k as int).push(
                self.pattern@[k as int],
            ));
            k += 1;
        }
        assert(self.pattern@.subrange(0, m as int) =~= self.pattern@);
        if self.whole_words {
            if at > 0 && byte_is_word(text[at - 1]) {
                return false;
            }
            if at + m < n && byte_is_word(text[at + m]) {
                return false;
            }
        }
        true
    }

    /// The first match from `from` on and before `to`.
    pub fn find_forward(&self, text: &Vec<u8>, from: usize, to: usize) -> (r: Option<usize>)
        ensures
            match r {
                Some(i) => first_found(
                    text@,
                    self.pattern@,
                    self.whole_words,
                    from as int,
                    to as int,
                ) == Some(i as int) && from <= i < to && found_at(
                    text@,
                    self.pattern@,
                    self.whole_words,
                    i as int,
                ),
                None => first_found(
                    text@,
                    self.pattern@,
                    self.whole_words,
                    from as int,
                    to as int,
                ) is None,
            },
    {
        let mut i: usize = from;
        while i < to
            invariant
                from <= i,
                first_found(text@, self.pattern@, self.whole_words, from as int, to as int)
                    == first_found(text@, self.pattern@, self.whole_words, i as int, to as int),
            decreases to - i,
        {
            if self.matches_at(text, i) {
                return Some(i);
            }
            i += 1;
        }
        None
    }

    /// The last match before `to` and not before `from`.
    pub fn find_backward(&self, text: &Vec<u8>, from: usize, to: usize) -> (r: Option<usize>)
        ensures
            match r {
                Some(i) => last_found(text@, self.pattern@, self.whole_words, from as int, to as int)
                    == Some(i as int) && from <= i < to && found_at(
                    text@,
                    self.pattern@,
                    self.whole_words,
                    i as int,
                ),
                None => last_found(text@, self.pattern@, self.whole_words, from as int, to as int)
                    is None,
            },
    {
        let mut i: usize = to;
        while i > from
            invariant
                i <= to,
                last_found(text@, self.pattern@, self.whole_words, from as int, to as int)
                    == last_found(text@, self.pattern@, self.whole_words, from as int, i as int),
            decreases i,
        {
            if self.matches_at(text, i - 1) {
                return Some(i - 1);
            }
            i -= 1;
        }
        None
    }

    /// The next match seen from `offset`: where it starts and where it ends.
    pub fn next(&self, text: &Vec<u8>, offset: usize, reverse: bool, wrap: bool) -> (r: Option<
        (usize, usize),
    >)
        ensures
            match r {
                Some((start, end)) => search_result(
                    text@,
                    self.pattern@,
                    self.whole_words,
                    offset as int,
                    reverse,
                    wrap,
                ) == Some(start as int) && end == start + self.pattern@.len() && end <= text@.len(),
                None => search_result(
                    text@,
                    self.pattern@,
                    self.whole_words,
                    offset as int,
                    reverse,
                    wrap,
                ) is None,
            },
    {
        let n = text.len();
        let found = if reverse {
            let to = if offset < n {
                offset
            } else {
                n
            };
            match self.find_backward(text, 0, to) {
                Some(i) => Some(i),
                None => if wrap {
                    self.find_backward(text, 0, n)
                } else {
                    None
                },
            }
        } else {
            let first = if offset < n {
                self.find_forward(text, offset + 1, n)
            } else {
                None
            };
            match first {
                Some(i) => Some(i),
                None => if wrap {
                    self.find_forward(text, 0, n)
                } else {
                    None
                },
            }
        };
        match found {
            Some(start) => Some((start, start + self.pattern.len())),
            None => None,
        }
    }
}

} // verus!
